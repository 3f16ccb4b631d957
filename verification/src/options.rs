//! Rendering options, and the parts of a diagram that depend on them alone.

use vstd::prelude::*;
use vstd::string::*;

use crate::discover::{Bundle, BundleV, Discovered, DiscoveredV};
use crate::find::{macro_name, Decl, DeclV};
use crate::label::{add_some, with_some};
use crate::list::Dup;
use crate::text::{cat2, cat3, cat4, decimal, decimal_u64, join, joined, replace, replaced, same, text};

verus! {

/// Rendering options for a Mermaid diagram.
#[derive(Debug)]
pub struct Options {
    /// Flowchart direction (`TD`, `LR`, `RL` or `BT`).
    pub direction: String,
    /// Draw declared signal couplings.
    pub signals: bool,
    /// Add a legend subgraph.
    pub legend: bool,
    /// Show full signal paths instead of shortened names.
    pub full_paths: bool,
    /// Show `#[cfg(..)]` predicates in labels.
    pub show_cfg: bool,
    /// Group items by fragment.
    pub fragments: bool,
    /// Render lifecycle state diagrams instead of flowcharts.
    pub states: bool,
    /// Horizontal node spacing, in pixels.
    pub h_spacing: Option<u32>,
    /// Vertical node spacing, in pixels.
    pub v_spacing: Option<u32>,
    /// Render runtime coupling instead of bring-up deps.
    pub runtime: bool,
    /// Show all bring-up deps as dotted context in runtime mode.
    pub runtime_deps: bool,
    /// Show bring-up deps only for uncoupled nodes in runtime mode.
    pub anchor_uncoupled: bool,
    /// Discovered accesses to overlay on the diagram.
    pub discovered: Vec<Discovered>,
    /// Named Mermaid layout engine.
    pub layout: Option<String>,
    /// Override diagram title.
    pub title: Option<String>,
    /// Show the title in the generated frontmatter.
    pub show_title: bool,
    /// Group items by executor.
    pub executors: bool,
    /// Collapse signal fan-out above this many readers (0 means off).
    pub max_fanout: usize,
    /// Bundles to expand when matching discovered accesses.
    pub bundles: Vec<Bundle>,
    /// Click-link template, e.g. a URL with `{file}` and `{line}` placeholders.
    pub links: Option<String>,
    /// Source files and the absolute paths that links give them.
    pub files: Vec<(String, String)>,
}

/// What a [`Options`] means.
pub struct OptionsV {
    pub direction: Seq<char>,
    pub signals: bool,
    pub legend: bool,
    pub full_paths: bool,
    pub show_cfg: bool,
    pub fragments: bool,
    pub states: bool,
    pub h_spacing: Option<u32>,
    pub v_spacing: Option<u32>,
    pub runtime: bool,
    pub runtime_deps: bool,
    pub anchor_uncoupled: bool,
    pub discovered: Seq<DiscoveredV>,
    pub layout: Option<Seq<char>>,
    pub title: Option<Seq<char>>,
    pub show_title: bool,
    pub executors: bool,
    pub max_fanout: usize,
    pub bundles: Seq<BundleV>,
    pub links: Option<Seq<char>>,
    pub files: Seq<(Seq<char>, Seq<char>)>,
}

impl DeepView for Options {
    type V = OptionsV;

    open spec fn deep_view(&self) -> OptionsV {
        OptionsV {
            direction: self.direction.deep_view(),
            signals: self.signals.deep_view(),
            legend: self.legend.deep_view(),
            full_paths: self.full_paths.deep_view(),
            show_cfg: self.show_cfg.deep_view(),
            fragments: self.fragments.deep_view(),
            states: self.states.deep_view(),
            h_spacing: self.h_spacing.deep_view(),
            v_spacing: self.v_spacing.deep_view(),
            runtime: self.runtime.deep_view(),
            runtime_deps: self.runtime_deps.deep_view(),
            anchor_uncoupled: self.anchor_uncoupled.deep_view(),
            discovered: self.discovered.deep_view(),
            layout: self.layout.deep_view(),
            title: self.title.deep_view(),
            show_title: self.show_title.deep_view(),
            executors: self.executors.deep_view(),
            max_fanout: self.max_fanout.deep_view(),
            bundles: self.bundles.deep_view(),
            links: self.links.deep_view(),
            files: self.files.deep_view(),
        }
    }
}

impl Dup for Options {
    fn dup(&self) -> (r: Self) {
        Options {
            direction: self.direction.dup(),
            signals: self.signals.dup(),
            legend: self.legend.dup(),
            full_paths: self.full_paths.dup(),
            show_cfg: self.show_cfg.dup(),
            fragments: self.fragments.dup(),
            states: self.states.dup(),
            h_spacing: self.h_spacing.dup(),
            v_spacing: self.v_spacing.dup(),
            runtime: self.runtime.dup(),
            runtime_deps: self.runtime_deps.dup(),
            anchor_uncoupled: self.anchor_uncoupled.dup(),
            discovered: self.discovered.dup(),
            layout: self.layout.dup(),
            title: self.title.dup(),
            show_title: self.show_title.dup(),
            executors: self.executors.dup(),
            max_fanout: self.max_fanout.dup(),
            bundles: self.bundles.dup(),
            links: self.links.dup(),
            files: self.files.dup(),
        }
    }
}

/// The options where none is given.
pub open spec fn default_options() -> OptionsV {
    OptionsV {
        direction: "TD"@,
        signals: false,
        legend: false,
        full_paths: false,
        show_cfg: true,
        fragments: false,
        states: false,
        h_spacing: None,
        v_spacing: None,
        runtime: false,
        runtime_deps: false,
        anchor_uncoupled: false,
        discovered: Seq::empty(),
        layout: None,
        title: None,
        show_title: true,
        executors: false,
        max_fanout: 0,
        bundles: Seq::empty(),
        links: None,
        files: Seq::empty(),
    }
}

impl Default for Options {
    fn default() -> (r: Self)
        ensures
            r.deep_view() == default_options(),
    {
        let r = Options {
            direction: text("TD"),
            signals: false,
            legend: false,
            full_paths: false,
            show_cfg: true,
            fragments: false,
            states: false,
            h_spacing: None,
            v_spacing: None,
            runtime: false,
            runtime_deps: false,
            anchor_uncoupled: false,
            discovered: Vec::new(),
            layout: None,
            title: None,
            show_title: true,
            executors: false,
            max_fanout: 0,
            bundles: Vec::new(),
            links: None,
            files: Vec::new(),
        };
        assert(r.discovered.deep_view() == Seq::<DiscoveredV>::empty());
        assert(r.bundles.deep_view() == Seq::<BundleV>::empty());
        assert(r.files.deep_view() == Seq::<(Seq<char>, Seq<char>)>::empty());
        r
    }
}

/// Which bring-up deps the runtime view shows.
#[derive(Clone, Copy, Debug, PartialEq, Eq, Structural)]
pub enum RuntimeDeps {
    /// None.
    Nothing,
    /// Those of nodes that nothing couples.
    Anchors,
    /// All.
    All,
}

/// Which bring-up deps the runtime view shows.
pub open spec fn runtime_deps(o: OptionsV) -> RuntimeDeps {
    if o.runtime_deps {
        RuntimeDeps::All
    } else if o.anchor_uncoupled {
        RuntimeDeps::Anchors
    } else {
        RuntimeDeps::Nothing
    }
}

pub fn runtime_dep_edges(o: &Options) -> (r: RuntimeDeps)
    ensures
        r == runtime_deps(o.deep_view()),
{
    if o.runtime_deps {
        RuntimeDeps::All
    } else if o.anchor_uncoupled {
        RuntimeDeps::Anchors
    } else {
        RuntimeDeps::Nothing
    }
}

/// The title of a diagram: the one given, else the macro and the name of the graph.
pub open spec fn title_of(d: DeclV, o: OptionsV) -> Seq<char> {
    match o.title {
        Some(t) => t,
        None => match d.spec.name {
            Some(n) => macro_name(d.kind) + " "@ + n,
            None => macro_name(d.kind),
        },
    }
}

pub fn diagram_title(d: &Decl, o: &Options) -> (r: String)
    ensures
        r@ == title_of(d.deep_view(), o.deep_view()),
{
    match &o.title {
        Some(t) => t.dup(),
        None => match &d.spec.name {
            Some(n) => cat3(d.kind.macro_name(), " ", n.as_str()),
            None => text(d.kind.macro_name()),
        },
    }
}

/// A text as it stands inside a quoted YAML scalar.
pub open spec fn yaml_quoted(s: Seq<char>) -> Seq<char> {
    replaced(replaced(s, "\\"@, "\\\\"@), "\""@, "\\\""@)
}

fn quote_yaml(s: &str) -> (r: String)
    ensures
        r@ == yaml_quoted(s@),
{
    proof {
        reveal_strlit("\\");
        reveal_strlit("\"");
    }
    let t = replace(s, "\\", "\\\\");
    replace(t.as_str(), "\"", "\\\"")
}

/// The title line of the frontmatter.
pub open spec fn title_line(title: Seq<char>, o: OptionsV) -> Seq<char> {
    if !o.show_title {
        ""@
    } else if o.title is Some {
        "title: \""@ + yaml_quoted(title) + "\"\n"@
    } else {
        "title: "@ + title + "\n"@
    }
}

/// The layout lines of the frontmatter.
pub open spec fn layout_lines(o: OptionsV) -> Seq<char> {
    match o.layout {
        Some(l) => "config:\n  layout: "@ + l + "\n"@,
        None => ""@,
    }
}

/// The frontmatter of a diagram: nothing where neither title nor layout is to be shown.
pub open spec fn frontmatter_of(title: Seq<char>, o: OptionsV) -> Seq<char> {
    if !o.show_title && o.layout is None {
        ""@
    } else {
        "---\n"@ + title_line(title, o) + layout_lines(o) + "---\n"@
    }
}

pub fn frontmatter(title: &str, o: &Options) -> (r: String)
    ensures
        r@ == frontmatter_of(title@, o.deep_view()),
{
    if !o.show_title && o.layout.is_none() {
        return text("");
    }
    let first = if !o.show_title {
        text("")
    } else if o.title.is_some() {
        let quoted = quote_yaml(title);
        cat3("title: \"", quoted.as_str(), "\"\n")
    } else {
        cat3("title: ", title, "\n")
    };
    let second = match &o.layout {
        Some(l) => cat3("config:\n  layout: ", l.as_str(), "\n"),
        None => text(""),
    };
    cat4("---\n", first.as_str(), second.as_str(), "---\n")
}

/// One spacing setting.
pub open spec fn setting(key: Seq<char>, n: Option<u32>) -> Option<Seq<char>> {
    match n {
        Some(v) => Some(key + decimal(v as nat)),
        None => None,
    }
}

fn make_setting(key: &str, n: Option<u32>) -> (r: Option<String>)
    ensures
        r.deep_view() == setting(key@, n),
{
    match n {
        Some(v) => {
            let digits = decimal_u64(v as u64);
            Some(cat2(key, digits.as_str()))
        },
        None => None,
    }
}

/// Ranks run sideways.
pub open spec fn sideways(o: OptionsV) -> bool {
    o.direction == "LR"@ || o.direction == "RL"@
}

/// The distance between nodes of one rank: across the direction of the diagram; narrow where a
/// legend is drawn and nothing else is asked for.
pub open spec fn node_spacing(o: OptionsV) -> Option<u32> {
    let given = if sideways(o) {
        o.v_spacing
    } else {
        o.h_spacing
    };
    if given is None && o.legend {
        Some(12)
    } else {
        given
    }
}

/// The distance between ranks: along the direction of the diagram.
pub open spec fn rank_spacing(o: OptionsV) -> Option<u32> {
    if sideways(o) {
        o.h_spacing
    } else {
        o.v_spacing
    }
}

/// The spacing directive: nothing where no spacing is set.
pub open spec fn spacing_text(o: OptionsV) -> Seq<char> {
    let settings = with_some(
        with_some(Seq::empty(), setting("\"nodeSpacing\": "@, node_spacing(o))),
        setting("\"rankSpacing\": "@, rank_spacing(o)),
    );
    if settings.len() == 0 {
        ""@
    } else {
        "%%{init: {\"flowchart\": {"@ + joined(settings, ", "@) + "}} }%%\n"@
    }
}

pub fn spacing_init(o: &Options) -> (r: String)
    ensures
        r@ == spacing_text(o.deep_view()),
{
    let across = same(o.direction.as_str(), "LR") || same(o.direction.as_str(), "RL");
    let given = if across {
        o.v_spacing
    } else {
        o.h_spacing
    };
    let node: Option<u32> = if given.is_none() && o.legend {
        Some(12)
    } else {
        given
    };
    let rank = if across {
        o.h_spacing
    } else {
        o.v_spacing
    };
    let mut settings: Vec<String> = Vec::new();
    assert(settings.deep_view() == Seq::<Seq<char>>::empty());
    add_some(&mut settings, make_setting("\"nodeSpacing\": ", node));
    add_some(&mut settings, make_setting("\"rankSpacing\": ", rank));
    if settings.len() == 0 {
        return text("");
    }
    let inner = join(&settings, ", ");
    cat3("%%{init: {\"flowchart\": {", inner.as_str(), "}} }%%\n")
}

} // verus!
