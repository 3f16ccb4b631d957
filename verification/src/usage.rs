//! The help texts of the tools.

use vstd::prelude::*;

verus! {

/// The name of the drawing tool.
pub const MERMAID_TOOL: &'static str = "supervisor-mermaid";

/// The name of the linting tool.
pub const LINT_TOOL: &'static str = "supervisor-lint";

/// The help text of the drawing tool.
pub const MERMAID_USAGE: &'static str = "supervisor-mermaid — Mermaid diagrams from embassy-supervisor graph declarations\n\nUSAGE:\n    supervisor-mermaid [OPTIONS] [FILE|DIR]...\n\nReads `supervisor_graph!`, `supervisor_fragment!` and `compose_graph!` from the\ngiven Rust sources. A directory is walked recursively for `*.rs`; with no\ninputs at all, the crate the working directory is in is scanned (its `src/`\nroots, expanded through `mod` declarations). Pass every file that takes part in\na graph: a compose site draws its fragments only if their declaring files are\ngiven too. `-` reads stdin.\n\nWhen several declarations are found on a terminal, a prompt asks which to\nrender; `--select`, `--all` or a pipe skips it.\n\nOPTIONS:\n  inputs\n        --deps             also scan the workspace's path dependencies (via\n                           `cargo metadata`) — for graphs adopting another\n                           crate's `#[dataflow]` fns\n\n  what to draw\n        --runtime          the running system: every signal and resource slot,\n                   and no bring-up edges by default\n        --states           node lifecycles, as a state diagram; with --signals,\n                           one composite per node carrying its concrete gates\n      --runtime-deps     with --runtime, restore every `deps:` edge as dotted\n                   `spawn` context (overrides --anchor-uncoupled)\n        --anchor-uncoupled with --runtime, restore dotted `deps:` edges that\n                   touch a node with no runtime coupling or resource\n    -s, --signals          draw declared and scanned dataflow as dotted signal\n                           edges (the runtime view always draws solid edges)\n    -f, --full-paths       label signals with the declared path, not the last\n                           segment that tells them apart\n            --hide-cfg         omit `#[cfg(...)]` predicates from labels and edges\n    -x, --exclude <NAMES>  leave out these nodes or pools (comma separated), and\n                           every edge that named them; repeatable\n        --fragments        box each fragment's items in a subgraph\n        --executors        box nodes by the executor they spawn through instead\n\n  layout\n    -d, --direction <DIR>  TD (default), TB, LR, RL or BT; reaches subgraphs and\n                           composite states too\n        --layout <ENGINE>  ask the renderer for a layout engine (`elk` is the\n                           one worth asking for, on large graphs)\n        --title <TEXT>     override the Mermaid and HTML page title\n        --no-title         omit the Mermaid and HTML page title\n        --max-fanout <N>   collapse a signal's readers into one aggregate box\n                           once more than N nodes read it\n        --h-spacing <N>    horizontal gap between boxes, in pixels (Mermaid\n                           defaults to 50)\n        --v-spacing <N>    vertical gap between boxes\n    -l, --legend           add a key, after the graph in the layout\n        --links <TPL>      add click links to each node's declaration; {file}\n                           and {line} in the template are substituted\n\n  output\n    -m, --markdown         wrap each diagram in a mermaid code fence, and give\n                           the legend a diagram of its own below the graph\n        --select <WHICH>   render only this declaration, by name or by its\n                           number in --list order\n        --all              render every declaration, never prompting\n        --list             list the declarations found, and stop\n        --json             print the graph model as JSON instead of a diagram\n                           (with every warning, under \"warnings\")\n        --check            verify and stop: print the diagnostics, no diagram;\n                           exit non-zero on any warning — CI's guard against\n                           graphs and `#[dataflow]` fns drifting apart (what\n                           the dataflow itself says is `supervisor-lint`)\n        --live-url         print a mermaid.live share link per diagram\n        --html <FILE>      write a self-rendering HTML page (mermaid.js CDN)\n        --render <FILE>    render through `mmdc` (svg/png/pdf, by extension)\n        --update <FILE>    rewrite the managed block in a markdown file\n        --watch            re-run whenever an input file changes (needs a\n                           destination: -o, --html, --render or --update)\n    -o, --output <FILE>    write to a file instead of stdout\n    -h, --help             show this\n";

/// The help text of the linting tool.
pub const LINT_USAGE: &'static str = "supervisor-lint — one-sided signals and exposed gates in an embassy-supervisor graph\n\nUSAGE:\n    supervisor-lint [OPTIONS] [FILE|DIR]...\n\nReads the same sources `supervisor-mermaid` draws from — `supervisor_graph!`,\n`supervisor_fragment!` and `compose_graph!`, plus the `#[dataflow]` fn bodies\na `discover` node or a `dataflow:` adoption binds — and reports what the\ndataflow model says: a signal read where nothing writes it, a signal written\nwhere nothing reads it, a gate-wrapped static (`Backed`, `Leased`, `VetoGate`)\nreachable from outside its module. The static shape of the diagnostics a\nrunning supervisor logs, at build time instead of on a serial console.\n\nA directory is walked recursively for `*.rs`; with no inputs at all, the crate\nthe working directory is in is scanned (its `src/` roots, expanded through\n`mod` declarations). `-` reads stdin. Every declaration found is linted, and a\nfinding exits non-zero: `--allow` is how a known, accepted absence is written\ndown where it gets reviewed.\n\nOPTIONS:\n        --deps             also scan the workspace's path dependencies (via\n                           `cargo metadata`) — for graphs adopting another\n                           crate's `#[dataflow]` fns\n        --only <CATS>      restrict to these categories (comma separated,\n                           repeatable): `orphan-reads` (read, never written),\n                           `dead-writes` (written, never read — `observed` /\n                           `beat` entries and `beat_*` verbs are exempt, their\n                           consumer is the supervisor), `public-gate` (a gated\n                           static any module can reach around its gate), or\n                           `all`, the default\n        --allow <SIGNALS>  accept these signals' findings (comma separated,\n                           repeatable; matched like signal labels, by\n                           `::`-suffix); an entry suppressing nothing is\n                           itself reported\n    -h, --help             show this\n";

/// The option lists of both tools as a markdown document.
pub const GUIDE: &'static str = "# Supervisor tools\n\n## Options\n\n`supervisor-mermaid [OPTIONS] [FILE|DIR]...`\n\n```text\n  inputs\n        --deps             also scan the workspace's path dependencies (via\n                           `cargo metadata`) — for graphs adopting another\n                           crate's `#[dataflow]` fns\n\n  what to draw\n        --runtime          the running system: every signal and resource slot,\n                   and no bring-up edges by default\n        --states           node lifecycles, as a state diagram; with --signals,\n                           one composite per node carrying its concrete gates\n      --runtime-deps     with --runtime, restore every `deps:` edge as dotted\n                   `spawn` context (overrides --anchor-uncoupled)\n        --anchor-uncoupled with --runtime, restore dotted `deps:` edges that\n                   touch a node with no runtime coupling or resource\n    -s, --signals          draw declared and scanned dataflow as dotted signal\n                           edges (the runtime view always draws solid edges)\n    -f, --full-paths       label signals with the declared path, not the last\n                           segment that tells them apart\n            --hide-cfg         omit `#[cfg(...)]` predicates from labels and edges\n    -x, --exclude <NAMES>  leave out these nodes or pools (comma separated), and\n                           every edge that named them; repeatable\n        --fragments        box each fragment's items in a subgraph\n        --executors        box nodes by the executor they spawn through instead\n\n  layout\n    -d, --direction <DIR>  TD (default), TB, LR, RL or BT; reaches subgraphs and\n                           composite states too\n        --layout <ENGINE>  ask the renderer for a layout engine (`elk` is the\n                           one worth asking for, on large graphs)\n        --title <TEXT>     override the Mermaid and HTML page title\n        --no-title         omit the Mermaid and HTML page title\n        --max-fanout <N>   collapse a signal's readers into one aggregate box\n                           once more than N nodes read it\n        --h-spacing <N>    horizontal gap between boxes, in pixels (Mermaid\n                           defaults to 50)\n        --v-spacing <N>    vertical gap between boxes\n    -l, --legend           add a key, after the graph in the layout\n        --links <TPL>      add click links to each node's declaration; {file}\n                           and {line} in the template are substituted\n\n  output\n    -m, --markdown         wrap each diagram in a mermaid code fence, and give\n                           the legend a diagram of its own below the graph\n        --select <WHICH>   render only this declaration, by name or by its\n                           number in --list order\n        --all              render every declaration, never prompting\n        --list             list the declarations found, and stop\n        --json             print the graph model as JSON instead of a diagram\n                           (with every warning, under \"warnings\")\n        --check            verify and stop: print the diagnostics, no diagram;\n                           exit non-zero on any warning — CI's guard against\n                           graphs and `#[dataflow]` fns drifting apart (what\n                           the dataflow itself says is `supervisor-lint`)\n        --live-url         print a mermaid.live share link per diagram\n        --html <FILE>      write a self-rendering HTML page (mermaid.js CDN)\n        --render <FILE>    render through `mmdc` (svg/png/pdf, by extension)\n        --update <FILE>    rewrite the managed block in a markdown file\n        --watch            re-run whenever an input file changes (needs a\n                           destination: -o, --html, --render or --update)\n    -o, --output <FILE>    write to a file instead of stdout\n    -h, --help             show this\n```\n\n## supervisor-lint\n\n```text\nsupervisor-lint [OPTIONS] [FILE|DIR]...\n\nOPTIONS:\n        --deps             also scan the workspace's path dependencies (via\n                           `cargo metadata`) — for graphs adopting another\n                           crate's `#[dataflow]` fns\n        --only <CATS>      restrict to these categories (comma separated,\n                           repeatable): `orphan-reads` (read, never written),\n                           `dead-writes` (written, never read — `observed` /\n                           `beat` entries and `beat_*` verbs are exempt, their\n                           consumer is the supervisor), `public-gate` (a gated\n                           static any module can reach around its gate), or\n                           `all`, the default\n        --allow <SIGNALS>  accept these signals' findings (comma separated,\n                           repeatable; matched like signal labels, by\n                           `::`-suffix); an entry suppressing nothing is\n                           itself reported\n    -h, --help             show this\n```\n";

} // verus!
