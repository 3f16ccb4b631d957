//! The command lines of the tools.

use vstd::prelude::*;
use vstd::string::*;

use crate::coupling::nonempty_from;
use crate::lint::{every_category, no_categories, with_categories, LintCats};
use crate::list::{put, Dup};
use crate::options::{default_options, Options, OptionsV};
use crate::text::{
    bounded_number, cat3, contains, has, has_prefix, parse_number, pieces, same, split, starts_with,
    text, trim, trimmed,
};

verus! {

/// What the drawing tool is asked for.
#[derive(Debug)]
pub struct MermaidArgs {
    /// The inputs.
    pub files: Vec<String>,
    /// How to render.
    pub opts: Options,
    /// Wrap diagrams in code fences.
    pub markdown: bool,
    /// List the declarations.
    pub list: bool,
    /// Render one declaration.
    pub select: Option<String>,
    /// Never ask.
    pub all: bool,
    /// Scan path dependencies too.
    pub deps: bool,
    /// Print the model.
    pub json: bool,
    /// Verify and stop.
    pub check: bool,
    /// Print share links.
    pub live_url: bool,
    /// Write an HTML page.
    pub html: Option<String>,
    /// Render an image.
    pub render_to: Option<String>,
    /// Rewrite a managed block.
    pub update: Option<String>,
    /// Run again on changes.
    pub watch: bool,
    /// Write to a file.
    pub output: Option<String>,
    /// Leave out these items.
    pub exclude: Vec<String>,
}

/// What a [`MermaidArgs`] means.
pub struct MermaidArgsV {
    pub files: Seq<Seq<char>>,
    pub opts: OptionsV,
    pub markdown: bool,
    pub list: bool,
    pub select: Option<Seq<char>>,
    pub all: bool,
    pub deps: bool,
    pub json: bool,
    pub check: bool,
    pub live_url: bool,
    pub html: Option<Seq<char>>,
    pub render_to: Option<Seq<char>>,
    pub update: Option<Seq<char>>,
    pub watch: bool,
    pub output: Option<Seq<char>>,
    pub exclude: Seq<Seq<char>>,
}

impl DeepView for MermaidArgs {
    type V = MermaidArgsV;

    open spec fn deep_view(&self) -> MermaidArgsV {
        MermaidArgsV {
            files: self.files.deep_view(),
            opts: self.opts.deep_view(),
            markdown: self.markdown.deep_view(),
            list: self.list.deep_view(),
            select: self.select.deep_view(),
            all: self.all.deep_view(),
            deps: self.deps.deep_view(),
            json: self.json.deep_view(),
            check: self.check.deep_view(),
            live_url: self.live_url.deep_view(),
            html: self.html.deep_view(),
            render_to: self.render_to.deep_view(),
            update: self.update.deep_view(),
            watch: self.watch.deep_view(),
            output: self.output.deep_view(),
            exclude: self.exclude.deep_view(),
        }
    }
}

impl Dup for MermaidArgs {
    fn dup(&self) -> (r: Self) {
        MermaidArgs {
            files: self.files.dup(),
            opts: self.opts.dup(),
            markdown: self.markdown.dup(),
            list: self.list.dup(),
            select: self.select.dup(),
            all: self.all.dup(),
            deps: self.deps.dup(),
            json: self.json.dup(),
            check: self.check.dup(),
            live_url: self.live_url.dup(),
            html: self.html.dup(),
            render_to: self.render_to.dup(),
            update: self.update.dup(),
            watch: self.watch.dup(),
            output: self.output.dup(),
            exclude: self.exclude.dup(),
        }
    }
}

/// What the drawing tool is asked for by no arguments.
pub open spec fn no_mermaid_args() -> MermaidArgsV {
    MermaidArgsV {
        files: Seq::empty(),
        opts: default_options(),
        markdown: false,
        list: false,
        select: None,
        all: false,
        deps: false,
        json: false,
        check: false,
        live_url: false,
        html: None,
        render_to: None,
        update: None,
        watch: false,
        output: None,
        exclude: Seq::empty(),
    }
}

fn make_no_mermaid_args() -> (r: MermaidArgs)
    ensures
        r.deep_view() == no_mermaid_args(),
{
    let r = MermaidArgs {
        files: Vec::new(),
        opts: Options::default(),
        markdown: false,
        list: false,
        select: None,
        all: false,
        deps: false,
        json: false,
        check: false,
        live_url: false,
        html: None,
        render_to: None,
        update: None,
        watch: false,
        output: None,
        exclude: Vec::new(),
    };
    assert(r.files.deep_view() == Seq::<Seq<char>>::empty());
    assert(r.exclude.deep_view() == Seq::<Seq<char>>::empty());
    r
}

/// Some of the arguments that ask for help.
pub open spec fn asks_help(arg: Seq<char>) -> bool {
    arg == "-h"@ || arg == "--help"@
}

fn is_help(arg: &str) -> (r: bool)
    ensures
        r == asks_help(arg@),
{
    same(arg, "-h") || same(arg, "--help")
}

/// The complaint on an option without its value.
pub open spec fn needs_value(name: Seq<char>) -> Seq<char> {
    "`"@ + name + "` needs a value; see --help"@
}

/// The complaint on an option that is none.
pub open spec fn unknown_option(arg: Seq<char>) -> Seq<char> {
    "unknown option `"@ + arg + "`; see --help"@
}

/// An argument that looks like an option: `-` itself stands for standard input.
pub open spec fn looks_like_option(arg: Seq<char>) -> bool {
    starts_with(arg, "-"@) && arg != "-"@
}

fn is_like_option(arg: &str) -> (r: bool)
    ensures
        r == looks_like_option(arg@),
{
    has_prefix(arg, "-") && !same(arg, "-")
}

/// Texts without the white space around them.
pub open spec fn all_trimmed(list: Seq<Seq<char>>) -> Seq<Seq<char>> {
    Seq::new(list.len(), |i: int| trimmed(list[i]))
}

/// The entries of a comma-separated list: trimmed, empty ones left out.
pub open spec fn comma_list(s: Seq<char>) -> Seq<Seq<char>> {
    nonempty_from(all_trimmed(pieces(s, ","@)), 0, Seq::empty())
}

fn add_comma_list(s: &str, out: &mut Vec<String>)
    ensures
        final(out).deep_view() == old(out).deep_view() + comma_list(s@),
{
    proof {
        reveal_strlit(",");
    }
    let parts = split(s, ",");
    let ghost ps = parts.deep_view();
    let ghost ts = all_trimmed(ps);
    let ghost start = out.deep_view();
    let ghost mut found = Seq::<Seq<char>>::empty();
    assert(start + found == start);
    let mut i: usize = 0;
    while i < parts.len()
        invariant
            i <= parts@.len(),
            ps == parts.deep_view(),
            ps == pieces(s@, ","@),
            ts == all_trimmed(ps),
            out.deep_view() == start + found,
            comma_list(s@) == nonempty_from(ts, i as int, found),
        decreases parts@.len() - i,
    {
        let name = trim(parts[i].as_str());
        assert(name@ == ts[i as int]);
        if name.as_str().unicode_len() > 0 {
            proof {
                found = found.push(name@);
            }
            put(out, name);
            assert(out.deep_view() == start + found);
        }
        i = i + 1;
    }
}

fn set_signals(a: &mut Options)
    ensures
        final(a).deep_view() == (OptionsV { signals: true, ..old(a).deep_view() }),
{
    a.signals = true;
}

fn set_full_paths(a: &mut Options)
    ensures
        final(a).deep_view() == (OptionsV { full_paths: true, ..old(a).deep_view() }),
{
    a.full_paths = true;
}

fn set_show_cfg(a: &mut Options)
    ensures
        final(a).deep_view() == (OptionsV { show_cfg: false, ..old(a).deep_view() }),
{
    a.show_cfg = false;
}

fn set_fragments(a: &mut Options)
    ensures
        final(a).deep_view() == (OptionsV { fragments: true, ..old(a).deep_view() }),
{
    a.fragments = true;
}

fn set_executors(a: &mut Options)
    ensures
        final(a).deep_view() == (OptionsV { executors: true, ..old(a).deep_view() }),
{
    a.executors = true;
}

fn set_states(a: &mut Options)
    ensures
        final(a).deep_view() == (OptionsV { states: true, ..old(a).deep_view() }),
{
    a.states = true;
}

fn set_runtime(a: &mut Options)
    ensures
        final(a).deep_view() == (OptionsV { runtime: true, ..old(a).deep_view() }),
{
    a.runtime = true;
}

fn set_runtime_deps(a: &mut Options)
    ensures
        final(a).deep_view() == (OptionsV { runtime_deps: true, ..old(a).deep_view() }),
{
    a.runtime_deps = true;
}

fn set_anchor_uncoupled(a: &mut Options)
    ensures
        final(a).deep_view() == (OptionsV { anchor_uncoupled: true, ..old(a).deep_view() }),
{
    a.anchor_uncoupled = true;
}

fn set_legend(a: &mut Options)
    ensures
        final(a).deep_view() == (OptionsV { legend: true, ..old(a).deep_view() }),
{
    a.legend = true;
}

fn set_show_title(a: &mut Options)
    ensures
        final(a).deep_view() == (OptionsV { show_title: false, ..old(a).deep_view() }),
{
    a.show_title = false;
}

/// The options once a flag on the view is given; nothing where the argument is none.
pub open spec fn with_view_flag(a: OptionsV, arg: Seq<char>) -> Option<OptionsV> {
    if arg == "--states"@ {
        Some((OptionsV { states: true, ..a }))
    } else if arg == "--runtime"@ {
        Some((OptionsV { runtime: true, ..a }))
    } else if arg == "--runtime-deps"@ {
        Some((OptionsV { runtime_deps: true, ..a }))
    } else if arg == "--anchor-uncoupled"@ {
        Some((OptionsV { anchor_uncoupled: true, ..a }))
    } else if arg == "-l"@ || arg == "--legend"@ {
        Some((OptionsV { legend: true, ..a }))
    } else {
        None
    }
}

fn set_view_flag(a: &mut Options, arg: &str) -> (r: bool)
    ensures
        match with_view_flag(old(a).deep_view(), arg@) {
            Some(b) => r && final(a).deep_view() == b,
            None => !r && final(a).deep_view() == old(a).deep_view(),
        },
{
    if same(arg, "--states") {
        set_states(a);
        return true;
    }
    if same(arg, "--runtime") {
        set_runtime(a);
        return true;
    }
    if same(arg, "--runtime-deps") {
        set_runtime_deps(a);
        return true;
    }
    if same(arg, "--anchor-uncoupled") {
        set_anchor_uncoupled(a);
        return true;
    }
    if same(arg, "-l") || same(arg, "--legend") {
        set_legend(a);
        return true;
    }
    false
}

/// The options once a flag on what is drawn is given; nothing where the argument is none.
pub open spec fn with_detail_flag(a: OptionsV, arg: Seq<char>) -> Option<OptionsV> {
    if arg == "-s"@ || arg == "--signals"@ {
        Some((OptionsV { signals: true, ..a }))
    } else if arg == "-f"@ || arg == "--full-paths"@ {
        Some((OptionsV { full_paths: true, ..a }))
    } else if arg == "--hide-cfg"@ {
        Some((OptionsV { show_cfg: false, ..a }))
    } else if arg == "--fragments"@ {
        Some((OptionsV { fragments: true, ..a }))
    } else if arg == "--executors"@ {
        Some((OptionsV { executors: true, ..a }))
    } else if arg == "--no-title"@ {
        Some((OptionsV { show_title: false, ..a }))
    } else {
        None
    }
}

fn set_detail_flag(a: &mut Options, arg: &str) -> (r: bool)
    ensures
        match with_detail_flag(old(a).deep_view(), arg@) {
            Some(b) => r && final(a).deep_view() == b,
            None => !r && final(a).deep_view() == old(a).deep_view(),
        },
{
    if same(arg, "-s") || same(arg, "--signals") {
        set_signals(a);
        return true;
    }
    if same(arg, "-f") || same(arg, "--full-paths") {
        set_full_paths(a);
        return true;
    }
    if same(arg, "--hide-cfg") {
        set_show_cfg(a);
        return true;
    }
    if same(arg, "--fragments") {
        set_fragments(a);
        return true;
    }
    if same(arg, "--executors") {
        set_executors(a);
        return true;
    }
    if same(arg, "--no-title") {
        set_show_title(a);
        return true;
    }
    false
}

/// The options once a flag is given; nothing where the argument is no flag of theirs.
pub open spec fn with_option_flag(a: OptionsV, arg: Seq<char>) -> Option<OptionsV> {
    match with_view_flag(a, arg) {
        Some(b) => Some(b),
        None => with_detail_flag(a, arg),
    }
}

fn set_option_flag(a: &mut Options, arg: &str) -> (r: bool)
    ensures
        match with_option_flag(old(a).deep_view(), arg@) {
            Some(b) => r && final(a).deep_view() == b,
            None => !r && final(a).deep_view() == old(a).deep_view(),
        },
{
    if set_view_flag(a, arg) {
        return true;
    }
    set_detail_flag(a, arg)
}

/// What is asked for once a flag that is no option of the diagram is given.
pub open spec fn with_tool_flag(a: MermaidArgsV, arg: Seq<char>) -> Option<MermaidArgsV> {
    if arg == "-m"@ || arg == "--markdown"@ {
        Some((MermaidArgsV { markdown: true, ..a }))
    } else if arg == "--list"@ {
        Some((MermaidArgsV { list: true, ..a }))
    } else if arg == "--all"@ {
        Some((MermaidArgsV { all: true, ..a }))
    } else if arg == "--deps"@ {
        Some((MermaidArgsV { deps: true, ..a }))
    } else if arg == "--json"@ {
        Some((MermaidArgsV { json: true, ..a }))
    } else if arg == "--check"@ {
        Some((MermaidArgsV { check: true, ..a }))
    } else if arg == "--live-url"@ {
        Some((MermaidArgsV { live_url: true, ..a }))
    } else if arg == "--watch"@ {
        Some((MermaidArgsV { watch: true, ..a }))
    } else {
        None
    }
}

fn set_markdown(a: &mut MermaidArgs)
    ensures
        final(a).deep_view() == (MermaidArgsV { markdown: true, ..old(a).deep_view() }),
{
    a.markdown = true;
}

fn set_list(a: &mut MermaidArgs)
    ensures
        final(a).deep_view() == (MermaidArgsV { list: true, ..old(a).deep_view() }),
{
    a.list = true;
}

fn set_all(a: &mut MermaidArgs)
    ensures
        final(a).deep_view() == (MermaidArgsV { all: true, ..old(a).deep_view() }),
{
    a.all = true;
}

fn set_deps(a: &mut MermaidArgs)
    ensures
        final(a).deep_view() == (MermaidArgsV { deps: true, ..old(a).deep_view() }),
{
    a.deps = true;
}

fn set_json(a: &mut MermaidArgs)
    ensures
        final(a).deep_view() == (MermaidArgsV { json: true, ..old(a).deep_view() }),
{
    a.json = true;
}

fn set_check(a: &mut MermaidArgs)
    ensures
        final(a).deep_view() == (MermaidArgsV { check: true, ..old(a).deep_view() }),
{
    a.check = true;
}

fn set_live_url(a: &mut MermaidArgs)
    ensures
        final(a).deep_view() == (MermaidArgsV { live_url: true, ..old(a).deep_view() }),
{
    a.live_url = true;
}

fn set_watch(a: &mut MermaidArgs)
    ensures
        final(a).deep_view() == (MermaidArgsV { watch: true, ..old(a).deep_view() }),
{
    a.watch = true;
}

fn set_tool_flag(a: &mut MermaidArgs, arg: &str) -> (r: bool)
    ensures
        match with_tool_flag(old(a).deep_view(), arg@) {
            Some(b) => r && final(a).deep_view() == b,
            None => !r && final(a).deep_view() == old(a).deep_view(),
        },
{
    if same(arg, "-m") || same(arg, "--markdown") {
        set_markdown(a);
        return true;
    }
    if same(arg, "--list") {
        set_list(a);
        return true;
    }
    if same(arg, "--all") {
        set_all(a);
        return true;
    }
    if same(arg, "--deps") {
        set_deps(a);
        return true;
    }
    if same(arg, "--json") {
        set_json(a);
        return true;
    }
    if same(arg, "--check") {
        set_check(a);
        return true;
    }
    if same(arg, "--live-url") {
        set_live_url(a);
        return true;
    }
    if same(arg, "--watch") {
        set_watch(a);
        return true;
    }
    false
}

/// What is asked for once a flag is given; nothing where the argument is no flag.
pub open spec fn with_flag(a: MermaidArgsV, arg: Seq<char>) -> Option<MermaidArgsV> {
    match with_option_flag(a.opts, arg) {
        Some(opts) => Some((MermaidArgsV { opts, ..a })),
        None => with_tool_flag(a, arg),
    }
}

fn set_flag(a: &mut MermaidArgs, arg: &str) -> (r: bool)
    ensures
        match with_flag(old(a).deep_view(), arg@) {
            Some(b) => r && final(a).deep_view() == b,
            None => !r && final(a).deep_view() == old(a).deep_view(),
        },
{
    if set_option_flag(&mut a.opts, arg) {
        return true;
    }
    set_tool_flag(a, arg)
}

/// The long name of an option that takes a value.
pub open spec fn valued(arg: Seq<char>) -> Option<Seq<char>> {
    if arg == "-d"@ || arg == "--direction"@ {
        Some("--direction"@)
    } else if arg == "-x"@ || arg == "--exclude"@ {
        Some("--exclude"@)
    } else if arg == "--layout"@ {
        Some("--layout"@)
    } else if arg == "--title"@ {
        Some("--title"@)
    } else if arg == "--max-fanout"@ {
        Some("--max-fanout"@)
    } else if arg == "--links"@ {
        Some("--links"@)
    } else if arg == "--h-spacing"@ {
        Some("--h-spacing"@)
    } else if arg == "--v-spacing"@ {
        Some("--v-spacing"@)
    } else if arg == "--select"@ {
        Some("--select"@)
    } else if arg == "--html"@ {
        Some("--html"@)
    } else if arg == "--render"@ {
        Some("--render"@)
    } else if arg == "--update"@ {
        Some("--update"@)
    } else if arg == "-o"@ || arg == "--output"@ {
        Some("--output"@)
    } else {
        None
    }
}

fn long_name(arg: &str) -> (r: Option<&'static str>)
    ensures
        match r {
            Some(name) => valued(arg@) == Some(name@),
            None => valued(arg@) is None,
        },
{
    if same(arg, "-d") || same(arg, "--direction") {
        Some("--direction")
    } else if same(arg, "-x") || same(arg, "--exclude") {
        Some("--exclude")
    } else if same(arg, "--layout") {
        Some("--layout")
    } else if same(arg, "--title") {
        Some("--title")
    } else if same(arg, "--max-fanout") {
        Some("--max-fanout")
    } else if same(arg, "--links") {
        Some("--links")
    } else if same(arg, "--h-spacing") {
        Some("--h-spacing")
    } else if same(arg, "--v-spacing") {
        Some("--v-spacing")
    } else if same(arg, "--select") {
        Some("--select")
    } else if same(arg, "--html") {
        Some("--html")
    } else if same(arg, "--render") {
        Some("--render")
    } else if same(arg, "--update") {
        Some("--update")
    } else if same(arg, "-o") || same(arg, "--output") {
        Some("--output")
    } else {
        None
    }
}

/// A text in upper case, as `str::to_uppercase` has it.
pub uninterp spec fn uppercase(s: Seq<char>) -> Seq<char>;

/// `str::to_uppercase`: the text in upper case depends on the text alone.
#[verifier::external_body]
fn to_upper(s: &str) -> (r: String)
    ensures
        r@ == uppercase(s@),
{
    s.to_uppercase()
}

/// A direction that diagrams know.
pub open spec fn is_direction(d: Seq<char>) -> bool {
    d == "TD"@ || d == "TB"@ || d == "LR"@ || d == "RL"@ || d == "BT"@
}

/// A direction, in upper case already, or the complaint on it.
pub open spec fn direction_or(d: Seq<char>) -> Result<Seq<char>, Seq<char>> {
    if is_direction(d) {
        Ok(d)
    } else {
        Err("unknown direction `"@ + d + "`; use TD, TB, LR, RL or BT"@)
    }
}

/// Checks a direction that is in upper case already.
pub fn check_direction(d: String) -> (r: Result<String, String>)
    ensures
        match r {
            Ok(t) => direction_or(d@) == Ok::<Seq<char>, Seq<char>>(t@),
            Err(e) => direction_or(d@) == Err::<Seq<char>, Seq<char>>(e@),
        },
{
    if same(d.as_str(), "TD") || same(d.as_str(), "TB") || same(d.as_str(), "LR") || same(d.as_str(), "RL")
        || same(d.as_str(), "BT") {
        Ok(d)
    } else {
        Err(cat3("unknown direction `", d.as_str(), "`; use TD, TB, LR, RL or BT"))
    }
}

/// A spacing: a whole number of pixels, at least one; or the complaint on it.
pub open spec fn spacing_or(v: Seq<char>) -> Result<u32, Seq<char>> {
    match bounded_number(v, 0xffff_ffff) {
        Some(n) => if n > 0 {
            Ok(n as u32)
        } else {
            Err("`"@ + v + "` is not a spacing; give a whole number of pixels"@)
        },
        None => Err("`"@ + v + "` is not a spacing; give a whole number of pixels"@),
    }
}

/// Reads a spacing.
pub fn spacing(v: &str) -> (r: Result<u32, String>)
    ensures
        match r {
            Ok(n) => spacing_or(v@) == Ok::<u32, Seq<char>>(n),
            Err(e) => spacing_or(v@) == Err::<u32, Seq<char>>(e@),
        },
{
    match parse_number(v, 0xffff_ffff) {
        Some(n) => {
            if n > 0 {
                return Ok(n as u32);
            }
        },
        None => {},
    }
    Err(cat3("`", v, "` is not a spacing; give a whole number of pixels"))
}

/// A title of more than one line.
pub open spec fn is_multiline(t: Seq<char>) -> bool {
    contains(t, "\n"@) || contains(t, "\r"@)
}

/// The options once one of them has its value, or the complaint on the value; nothing where it is
/// no option of the diagram. The value of `--direction` is given in upper case too.
pub open spec fn with_option_value(
    a: OptionsV,
    name: Seq<char>,
    v: Seq<char>,
    upper: Seq<char>,
) -> Option<
    Result<OptionsV, Seq<char>>,
> {
    if name == "--direction"@ {
        Some(
            match direction_or(upper) {
                Ok(direction) => Ok((OptionsV { direction, ..a })),
                Err(e) => Err(e),
            },
        )
    } else if name == "--layout"@ {
        Some(Ok((OptionsV { layout: Some(v), ..a })))
    } else if name == "--title"@ {
        Some(
            if is_multiline(v) {
                Err("`--title` must be a single line"@)
            } else {
                Ok((OptionsV { title: Some(v), ..a }))
            },
        )
    } else if name == "--max-fanout"@ {
        Some(
            match bounded_number(v, usize::MAX as nat) {
                Some(n) => Ok((OptionsV { max_fanout: n as usize, ..a })),
                None => Err("`--max-fanout` needs a number of readers"@),
            },
        )
    } else if name == "--links"@ {
        Some(Ok((OptionsV { links: Some(v), ..a })))
    } else if name == "--h-spacing"@ {
        Some(
            match spacing_or(v) {
                Ok(n) => Ok((OptionsV { h_spacing: Some(n), ..a })),
                Err(e) => Err(e),
            },
        )
    } else if name == "--v-spacing"@ {
        Some(
            match spacing_or(v) {
                Ok(n) => Ok((OptionsV { v_spacing: Some(n), ..a })),
                Err(e) => Err(e),
            },
        )
    } else {
        None
    }
}

fn put_direction(a: &mut Options, v: String)
    ensures
        final(a).deep_view() == (OptionsV { direction: v@, ..old(a).deep_view() }),
{
    a.direction = v;
}

fn put_layout(a: &mut Options, v: String)
    ensures
        final(a).deep_view() == (OptionsV { layout: Some(v@), ..old(a).deep_view() }),
{
    a.layout = Some(v);
}

fn put_title(a: &mut Options, v: String)
    ensures
        final(a).deep_view() == (OptionsV { title: Some(v@), ..old(a).deep_view() }),
{
    a.title = Some(v);
}

fn put_links(a: &mut Options, v: String)
    ensures
        final(a).deep_view() == (OptionsV { links: Some(v@), ..old(a).deep_view() }),
{
    a.links = Some(v);
}

fn put_max_fanout(a: &mut Options, v: usize)
    ensures
        final(a).deep_view() == (OptionsV { max_fanout: v, ..old(a).deep_view() }),
{
    a.max_fanout = v;
}

fn put_h_spacing(a: &mut Options, v: u32)
    ensures
        final(a).deep_view() == (OptionsV { h_spacing: Some(v), ..old(a).deep_view() }),
{
    a.h_spacing = Some(v);
}

fn put_v_spacing(a: &mut Options, v: u32)
    ensures
        final(a).deep_view() == (OptionsV { v_spacing: Some(v), ..old(a).deep_view() }),
{
    a.v_spacing = Some(v);
}

fn put_select(a: &mut MermaidArgs, v: String)
    ensures
        final(a).deep_view() == (MermaidArgsV { select: Some(v@), ..old(a).deep_view() }),
{
    a.select = Some(v);
}

fn put_html(a: &mut MermaidArgs, v: String)
    ensures
        final(a).deep_view() == (MermaidArgsV { html: Some(v@), ..old(a).deep_view() }),
{
    a.html = Some(v);
}

fn put_render_to(a: &mut MermaidArgs, v: String)
    ensures
        final(a).deep_view() == (MermaidArgsV { render_to: Some(v@), ..old(a).deep_view() }),
{
    a.render_to = Some(v);
}

fn put_update(a: &mut MermaidArgs, v: String)
    ensures
        final(a).deep_view() == (MermaidArgsV { update: Some(v@), ..old(a).deep_view() }),
{
    a.update = Some(v);
}

fn put_output(a: &mut MermaidArgs, v: String)
    ensures
        final(a).deep_view() == (MermaidArgsV { output: Some(v@), ..old(a).deep_view() }),
{
    a.output = Some(v);
}

fn set_option_value(a: &mut Options, name: &str, v: &String) -> (r: Option<Result<(), String>>)
    ensures
        match r {
            Some(Ok(())) => with_option_value(old(a).deep_view(), name@, v@, uppercase(v@)) == Some(
                Ok::<OptionsV, Seq<char>>(final(a).deep_view()),
            ),
            Some(Err(e)) => with_option_value(old(a).deep_view(), name@, v@, uppercase(v@)) == Some(
                Err::<OptionsV, Seq<char>>(e@),
            ),
            None => with_option_value(old(a).deep_view(), name@, v@, uppercase(v@)) is None
                && final(a).deep_view() == old(a).deep_view(),
        },
{
    if same(name, "--direction") {
        let upper = to_upper(v.as_str());
        match check_direction(upper) {
            Ok(d) => {
                put_direction(a, d);
                return Some(Ok(()));
            },
            Err(e) => {
                return Some(Err(e));
            },
        }
    }
    if same(name, "--layout") {
        put_layout(a, v.dup());
        return Some(Ok(()));
    }
    if same(name, "--title") {
        if has(v.as_str(), "\n") || has(v.as_str(), "\r") {
            return Some(Err(text("`--title` must be a single line")));
        }
        put_title(a, v.dup());
        return Some(Ok(()));
    }
    if same(name, "--max-fanout") {
        match parse_number(v.as_str(), usize::MAX as u64) {
            Some(n) => {
                put_max_fanout(a, n as usize);
                return Some(Ok(()));
            },
            None => {
                return Some(Err(text("`--max-fanout` needs a number of readers")));
            },
        }
    }
    if same(name, "--links") {
        put_links(a, v.dup());
        return Some(Ok(()));
    }
    if same(name, "--h-spacing") {
        match spacing(v.as_str()) {
            Ok(n) => {
                put_h_spacing(a, n);
                return Some(Ok(()));
            },
            Err(e) => {
                return Some(Err(e));
            },
        }
    }
    if same(name, "--v-spacing") {
        match spacing(v.as_str()) {
            Ok(n) => {
                put_v_spacing(a, n);
                return Some(Ok(()));
            },
            Err(e) => {
                return Some(Err(e));
            },
        }
    }
    None
}

/// What is asked for once an option that takes a value, but is none of the diagram, has it.
pub open spec fn with_tool_value(a: MermaidArgsV, name: Seq<char>, v: Seq<char>) -> MermaidArgsV {
    if name == "--exclude"@ {
        (MermaidArgsV { exclude: a.exclude + comma_list(v), ..a })
    } else if name == "--select"@ {
        (MermaidArgsV { select: Some(v), ..a })
    } else if name == "--html"@ {
        (MermaidArgsV { html: Some(v), ..a })
    } else if name == "--render"@ {
        (MermaidArgsV { render_to: Some(v), ..a })
    } else if name == "--update"@ {
        (MermaidArgsV { update: Some(v), ..a })
    } else {
        (MermaidArgsV { output: Some(v), ..a })
    }
}

fn set_tool_value(a: &mut MermaidArgs, name: &str, v: &String)
    ensures
        final(a).deep_view() == with_tool_value(old(a).deep_view(), name@, v@),
{
    if same(name, "--exclude") {
        add_comma_list(v.as_str(), &mut a.exclude);
        return;
    }
    if same(name, "--select") {
        put_select(a, v.dup());
        return;
    }
    if same(name, "--html") {
        put_html(a, v.dup());
        return;
    }
    if same(name, "--render") {
        put_render_to(a, v.dup());
        return;
    }
    if same(name, "--update") {
        put_update(a, v.dup());
        return;
    }
    put_output(a, v.dup());
}

/// What is asked for once an option has its value, or the complaint on the value.
pub open spec fn with_value(a: MermaidArgsV, name: Seq<char>, v: Seq<char>, upper: Seq<char>) -> Result<
    MermaidArgsV,
    Seq<char>,
> {
    match with_option_value(a.opts, name, v, upper) {
        Some(Ok(opts)) => Ok((MermaidArgsV { opts, ..a })),
        Some(Err(e)) => Err(e),
        None => Ok(with_tool_value(a, name, v)),
    }
}

fn set_value(a: &mut MermaidArgs, name: &str, v: &String) -> (r: Result<(), String>)
    ensures
        match r {
            Ok(()) => with_value(old(a).deep_view(), name@, v@, uppercase(v@)) == Ok::<
                MermaidArgsV,
                Seq<char>,
            >(final(a).deep_view()),
            Err(e) => with_value(old(a).deep_view(), name@, v@, uppercase(v@)) == Err::<
                MermaidArgsV,
                Seq<char>,
            >(e@),
        },
{
    match set_option_value(&mut a.opts, name, v) {
        Some(done) => done,
        None => {
            set_tool_value(a, name, v);
            Ok(())
        },
    }
}

/// What the arguments from number `i` on ask for, on top of what was asked for before them;
/// nothing where they ask for help; or the complaint on the first that is wrong.
pub open spec fn mermaid_from(list: Seq<Seq<char>>, i: int, a: MermaidArgsV) -> Result<
    Option<MermaidArgsV>,
    Seq<char>,
>
    decreases list.len() + 2 - i,
{
    if i < 0 || i >= list.len() {
        Ok(Some(a))
    } else if asks_help(list[i]) {
        Ok(None)
    } else if with_flag(a, list[i]) is Some {
        mermaid_from(list, i + 1, with_flag(a, list[i])->0)
    } else if valued(list[i]) is Some {
        if i + 1 >= list.len() {
            Err(needs_value(valued(list[i])->0))
        } else {
            match with_value(a, valued(list[i])->0, list[i + 1], uppercase(list[i + 1])) {
                Ok(b) => mermaid_from(list, i + 2, b),
                Err(e) => Err(e),
            }
        }
    } else if looks_like_option(list[i]) {
        Err(unknown_option(list[i]))
    } else {
        mermaid_from(list, i + 1, (MermaidArgsV { files: a.files.push(list[i]), ..a }))
    }
}

pub const TWO_DIAGRAMS: &'static str = "`--states` and `--runtime` are different diagrams; pick one";

pub const ANCHOR_ALONE: &'static str = "`--anchor-uncoupled` is a runtime-view option; the bring-up chart draws every dep edge already";

pub const DEPS_ALONE: &'static str = "`--runtime-deps` is a runtime-view option; the bring-up chart draws every dep edge already";

pub const TWO_GROUPINGS: &'static str = "`--fragments` and `--executors` are two groupings of the same boxes; pick one";

pub const TWO_TITLES: &'static str = "`--title` and `--no-title` cannot be used together";

pub const WATCH_ALONE: &'static str = "`--watch` re-runs into a destination; give it -o, --html, --render or --update";

/// The complaint on arguments that do not go together.
pub open spec fn mermaid_conflict(a: MermaidArgsV) -> Option<Seq<char>> {
    if a.opts.states && a.opts.runtime {
        Some(TWO_DIAGRAMS@)
    } else if a.opts.anchor_uncoupled && !a.opts.runtime {
        Some(ANCHOR_ALONE@)
    } else if a.opts.runtime_deps && !a.opts.runtime {
        Some(DEPS_ALONE@)
    } else if a.opts.fragments && a.opts.executors {
        Some(TWO_GROUPINGS@)
    } else if a.opts.title is Some && !a.opts.show_title {
        Some(TWO_TITLES@)
    } else if a.watch && a.output is None && a.html is None && a.render_to is None && a.update is None {
        Some(WATCH_ALONE@)
    } else {
        None
    }
}

fn find_conflict(a: &MermaidArgs) -> (r: Option<&'static str>)
    ensures
        match r {
            Some(e) => mermaid_conflict(a.deep_view()) == Some(e@),
            None => mermaid_conflict(a.deep_view()) is None,
        },
{
    if a.opts.states && a.opts.runtime {
        Some(TWO_DIAGRAMS)
    } else if a.opts.anchor_uncoupled && !a.opts.runtime {
        Some(ANCHOR_ALONE)
    } else if a.opts.runtime_deps && !a.opts.runtime {
        Some(DEPS_ALONE)
    } else if a.opts.fragments && a.opts.executors {
        Some(TWO_GROUPINGS)
    } else if a.opts.title.is_some() && !a.opts.show_title {
        Some(TWO_TITLES)
    } else if a.watch && a.output.is_none() && a.html.is_none() && a.render_to.is_none()
        && a.update.is_none() {
        Some(WATCH_ALONE)
    } else {
        None
    }
}

/// What the arguments of the drawing tool ask for.
pub open spec fn mermaid_args(list: Seq<Seq<char>>) -> Result<Option<MermaidArgsV>, Seq<char>> {
    match mermaid_from(list, 0, no_mermaid_args()) {
        Ok(Some(a)) => match mermaid_conflict(a) {
            Some(e) => Err(e),
            None => Ok(Some(a)),
        },
        other => other,
    }
}

/// Reads the arguments of the drawing tool; nothing where they ask for help.
pub fn parse_mermaid_args(list: &Vec<String>) -> (r: Result<Option<MermaidArgs>, String>)
    ensures
        match r {
            Ok(a) => mermaid_args(list.deep_view()) == Ok::<Option<MermaidArgsV>, Seq<char>>(a.deep_view()),
            Err(e) => mermaid_args(list.deep_view()) == Err::<Option<MermaidArgsV>, Seq<char>>(e@),
        },
{
    let ghost l = list.deep_view();
    let mut a = make_no_mermaid_args();
    let ghost whole = mermaid_from(l, 0, no_mermaid_args());
    let size: usize = list.len();
    let mut i: usize = 0;
    while i < size
        invariant
            i <= size == list@.len(),
            l == list.deep_view(),
            whole == mermaid_from(l, 0, no_mermaid_args()),
            whole == mermaid_from(l, i as int, a.deep_view()),
        decreases size - i,
    {
        let arg = list[i].as_str();
        assert(arg@ == l[i as int]);
        if is_help(arg) {
            return Ok(None);
        }
        if set_flag(&mut a, arg) {
            i = i + 1;
        } else if let Some(name) = long_name(arg) {
            if size - i < 2 {
                return Err(cat3("`", name, "` needs a value; see --help"));
            }
            assert(list@[i + 1]@ == l[i + 1]);
            set_value(&mut a, name, &list[i + 1])?;
            i = i + 2;
        } else if is_like_option(arg) {
            return Err(cat3("unknown option `", arg, "`; see --help"));
        } else {
            put(&mut a.files, list[i].dup());
            i = i + 1;
        }
    }
    if let Some(e) = find_conflict(&a) {
        return Err(text(e));
    }
    Ok(Some(a))
}

/// The options that the drawing tool takes.
pub open spec fn mermaid_options() -> Seq<Seq<char>> {
    Seq::<Seq<char>>::empty()
        .push("-s"@)
        .push("--signals"@)
        .push("-f"@)
        .push("--full-paths"@)
        .push("--hide-cfg"@)
        .push("--fragments"@)
        .push("--executors"@)
        .push("--states"@)
        .push("--runtime"@)
        .push("--runtime-deps"@)
        .push("--anchor-uncoupled"@)
        .push("-l"@)
        .push("--legend"@)
        .push("-m"@)
        .push("--markdown"@)
        .push("--list"@)
        .push("--all"@)
        .push("--deps"@)
        .push("--json"@)
        .push("--check"@)
        .push("--live-url"@)
        .push("--watch"@)
        .push("--no-title"@)
        .push("-d"@)
        .push("--direction"@)
        .push("-x"@)
        .push("--exclude"@)
        .push("--layout"@)
        .push("--title"@)
        .push("--max-fanout"@)
        .push("--links"@)
        .push("--h-spacing"@)
        .push("--v-spacing"@)
        .push("--select"@)
        .push("--html"@)
        .push("--render"@)
        .push("--update"@)
        .push("-o"@)
        .push("--output"@)
        .push("-h"@)
        .push("--help"@)
}

/// Lists the options that the drawing tool takes.
pub fn list_mermaid_options() -> (r: Vec<String>)
    ensures
        r.deep_view() == mermaid_options(),
{
    let mut out: Vec<String> = Vec::new();
    assert(out.deep_view() == Seq::<Seq<char>>::empty());
    put(&mut out, text("-s"));
    put(&mut out, text("--signals"));
    put(&mut out, text("-f"));
    put(&mut out, text("--full-paths"));
    put(&mut out, text("--hide-cfg"));
    put(&mut out, text("--fragments"));
    put(&mut out, text("--executors"));
    put(&mut out, text("--states"));
    put(&mut out, text("--runtime"));
    put(&mut out, text("--runtime-deps"));
    put(&mut out, text("--anchor-uncoupled"));
    put(&mut out, text("-l"));
    put(&mut out, text("--legend"));
    put(&mut out, text("-m"));
    put(&mut out, text("--markdown"));
    put(&mut out, text("--list"));
    put(&mut out, text("--all"));
    put(&mut out, text("--deps"));
    put(&mut out, text("--json"));
    put(&mut out, text("--check"));
    put(&mut out, text("--live-url"));
    put(&mut out, text("--watch"));
    put(&mut out, text("--no-title"));
    put(&mut out, text("-d"));
    put(&mut out, text("--direction"));
    put(&mut out, text("-x"));
    put(&mut out, text("--exclude"));
    put(&mut out, text("--layout"));
    put(&mut out, text("--title"));
    put(&mut out, text("--max-fanout"));
    put(&mut out, text("--links"));
    put(&mut out, text("--h-spacing"));
    put(&mut out, text("--v-spacing"));
    put(&mut out, text("--select"));
    put(&mut out, text("--html"));
    put(&mut out, text("--render"));
    put(&mut out, text("--update"));
    put(&mut out, text("-o"));
    put(&mut out, text("--output"));
    put(&mut out, text("-h"));
    put(&mut out, text("--help"));
    out
}

/// The drawing tool takes an argument as an option exactly where the list of its options has it.
pub proof fn the_option_list_is_what_the_drawing_tool_takes(a: MermaidArgsV, arg: Seq<char>)
    ensures
        mermaid_options().contains(arg) <==> (asks_help(arg) || with_flag(a, arg) is Some || valued(arg) is Some),
{
    let l = mermaid_options();
    assert(l[0] == "-s"@);
    assert(l[1] == "--signals"@);
    assert(l[2] == "-f"@);
    assert(l[3] == "--full-paths"@);
    assert(l[4] == "--hide-cfg"@);
    assert(l[5] == "--fragments"@);
    assert(l[6] == "--executors"@);
    assert(l[7] == "--states"@);
    assert(l[8] == "--runtime"@);
    assert(l[9] == "--runtime-deps"@);
    assert(l[10] == "--anchor-uncoupled"@);
    assert(l[11] == "-l"@);
    assert(l[12] == "--legend"@);
    assert(l[13] == "-m"@);
    assert(l[14] == "--markdown"@);
    assert(l[15] == "--list"@);
    assert(l[16] == "--all"@);
    assert(l[17] == "--deps"@);
    assert(l[18] == "--json"@);
    assert(l[19] == "--check"@);
    assert(l[20] == "--live-url"@);
    assert(l[21] == "--watch"@);
    assert(l[22] == "--no-title"@);
    assert(l[23] == "-d"@);
    assert(l[24] == "--direction"@);
    assert(l[25] == "-x"@);
    assert(l[26] == "--exclude"@);
    assert(l[27] == "--layout"@);
    assert(l[28] == "--title"@);
    assert(l[29] == "--max-fanout"@);
    assert(l[30] == "--links"@);
    assert(l[31] == "--h-spacing"@);
    assert(l[32] == "--v-spacing"@);
    assert(l[33] == "--select"@);
    assert(l[34] == "--html"@);
    assert(l[35] == "--render"@);
    assert(l[36] == "--update"@);
    assert(l[37] == "-o"@);
    assert(l[38] == "--output"@);
    assert(l[39] == "-h"@);
    assert(l[40] == "--help"@);
}

/// What the linting tool is asked for.
#[derive(Debug)]
pub struct LintArgs {
    /// The inputs.
    pub files: Vec<String>,
    /// Scan path dependencies too.
    pub deps: bool,
    /// The categories.
    pub only: LintCats,
    /// Signals on which nothing is reported.
    pub allow: Vec<String>,
}

/// What a [`LintArgs`] means.
pub struct LintArgsV {
    pub files: Seq<Seq<char>>,
    pub deps: bool,
    pub only: LintCats,
    pub allow: Seq<Seq<char>>,
}

impl DeepView for LintArgs {
    type V = LintArgsV;

    open spec fn deep_view(&self) -> LintArgsV {
        LintArgsV {
            files: self.files.deep_view(),
            deps: self.deps.deep_view(),
            only: self.only,
            allow: self.allow.deep_view(),
        }
    }
}

impl Dup for LintArgs {
    fn dup(&self) -> (r: Self) {
        LintArgs {
            files: self.files.dup(),
            deps: self.deps.dup(),
            only: self.only,
            allow: self.allow.dup(),
        }
    }
}

/// What the arguments from number `i` on ask for, on top of what was asked for before them;
/// nothing where they ask for help; or the complaint on the first that is wrong.
pub open spec fn lint_from(
    list: Seq<Seq<char>>,
    i: int,
    a: LintArgsV,
) -> Result<Option<LintArgsV>, Seq<char>>
    decreases list.len() + 2 - i,
{
    if i < 0 || i >= list.len() {
        Ok(Some(a))
    } else if asks_help(list[i]) {
        Ok(None)
    } else if list[i] == "--deps"@ {
        lint_from(list, i + 1, (LintArgsV { deps: true, ..a }))
    } else if list[i] == "--only"@ || list[i] == "--allow"@ {
        if i + 1 >= list.len() {
            Err(needs_value(list[i]))
        } else if list[i] == "--only"@ {
            match with_categories(a.only, pieces(list[i + 1], ","@), 0) {
                (only, None) => lint_from(list, i + 2, (LintArgsV { only, ..a })),
                (_, Some(e)) => Err(e),
            }
        } else {
            lint_from(list, i + 2, (LintArgsV { allow: a.allow + comma_list(list[i + 1]), ..a }))
        }
    } else if looks_like_option(list[i]) {
        Err(unknown_option(list[i]))
    } else {
        lint_from(list, i + 1, (LintArgsV { files: a.files.push(list[i]), ..a }))
    }
}

/// What the linting tool is asked for by no arguments, but for the categories.
pub open spec fn no_lint_args() -> LintArgsV {
    LintArgsV { files: Seq::empty(), deps: false, only: no_categories(), allow: Seq::empty() }
}

/// What the arguments of the linting tool ask for: every category where they name none.
pub open spec fn lint_args(list: Seq<Seq<char>>) -> Result<Option<LintArgsV>, Seq<char>> {
    match lint_from(list, 0, no_lint_args()) {
        Ok(Some(a)) => Ok(
            Some(
                if a.only == no_categories() {
                    (LintArgsV { only: every_category(), ..a })
                } else {
                    a
                },
            ),
        ),
        other => other,
    }
}

/// Reads the arguments of the linting tool; nothing where they ask for help.
pub fn parse_lint_args(list: &Vec<String>) -> (r: Result<Option<LintArgs>, String>)
    ensures
        match r {
            Ok(a) => lint_args(list.deep_view()) == Ok::<Option<LintArgsV>, Seq<char>>(a.deep_view()),
            Err(e) => lint_args(list.deep_view()) == Err::<Option<LintArgsV>, Seq<char>>(e@),
        },
{
    let ghost l = list.deep_view();
    let mut a = LintArgs { files: Vec::new(), deps: false, only: LintCats::default(), allow: Vec::new() };
    assert(a.files.deep_view() == Seq::<Seq<char>>::empty());
    assert(a.allow.deep_view() == Seq::<Seq<char>>::empty());
    let ghost whole = lint_from(l, 0, no_lint_args());
    let size: usize = list.len();
    let mut i: usize = 0;
    while i < size
        invariant
            i <= size == list@.len(),
            l == list.deep_view(),
            whole == lint_from(l, 0, no_lint_args()),
            whole == lint_from(l, i as int, a.deep_view()),
        decreases size - i,
    {
        let arg = list[i].as_str();
        assert(arg@ == l[i as int]);
        if is_help(arg) {
            return Ok(None);
        }
        if same(arg, "--deps") {
            a.deps = true;
            i = i + 1;
        } else if same(arg, "--only") || same(arg, "--allow") {
            if size - i < 2 {
                return Err(cat3("`", arg, "` needs a value; see --help"));
            }
            assert(list@[i + 1]@ == l[i + 1]);
            if same(arg, "--only") {
                a.only.parse(list[i + 1].as_str())?;
            } else {
                add_comma_list(list[i + 1].as_str(), &mut a.allow);
            }
            i = i + 2;
        } else if is_like_option(arg) {
            return Err(cat3("unknown option `", arg, "`; see --help"));
        } else {
            put(&mut a.files, list[i].dup());
            i = i + 1;
        }
    }
    if !a.only.any() {
        a.only = LintCats::all();
    }
    Ok(Some(a))
}

/// The options that the linting tool takes.
pub open spec fn lint_options() -> Seq<Seq<char>> {
    Seq::<Seq<char>>::empty().push("-h"@).push("--help"@).push("--deps"@).push("--only"@).push("--allow"@)
}

/// Lists the options that the linting tool takes.
pub fn list_lint_options() -> (r: Vec<String>)
    ensures
        r.deep_view() == lint_options(),
{
    let mut out: Vec<String> = Vec::new();
    assert(out.deep_view() == Seq::<Seq<char>>::empty());
    put(&mut out, text("-h"));
    put(&mut out, text("--help"));
    put(&mut out, text("--deps"));
    put(&mut out, text("--only"));
    put(&mut out, text("--allow"));
    out
}

/// Every option that the linting tool does not list is refused, and no other.
pub proof fn the_option_list_is_what_the_linting_tool_takes(a: LintArgsV, arg: Seq<char>)
    requires
        looks_like_option(arg),
    ensures
        !lint_options().contains(arg) <==> lint_from(seq![arg], 0, a) == Err::<Option<LintArgsV>, Seq<char>>(
            unknown_option(arg),
        ),
{
    let l = lint_options();
    assert(l[0] == "-h"@);
    assert(l[1] == "--help"@);
    assert(l[2] == "--deps"@);
    assert(l[3] == "--only"@);
    assert(l[4] == "--allow"@);
    let list = seq![arg];
    assert(list[0] == arg);
    reveal_with_fuel(lint_from, 2);
    if arg == "--only"@ || arg == "--allow"@ {
        reveal_strlit("` needs a value; see --help");
        reveal_strlit("`; see --help");
        reveal_strlit("`");
        reveal_strlit("unknown option `");
        assert(needs_value(arg)[0] == '`');
        assert(unknown_option(arg)[0] == 'u');
    }
}

} // verus!
