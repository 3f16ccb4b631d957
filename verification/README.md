# Supervisor tools

A Verus library that reads supervisor task graphs out of Rust source, draws them and lints them.
What its functions return and change is stated in contracts and proved, given what the contracts of
the outside calls say.

`supervisor_graph!`, `supervisor_fragment!` and `compose_graph!` declarations are found and parsed,
the bodies of `#[dataflow]` functions are scanned for the signals they touch, and the graph that
results is drawn as a Mermaid flowchart or state diagram, dumped as JSON, or searched for signals
with one side only and for gates that can be bypassed.

- `src/` is the library. Each executable type has a ghost type beside it, named with a final `V`,
  which its `deep_view()` gives and which the contracts speak of. What the outside crates do (`syn`,
  `proc_macro2`, `serde_json`, `flate2`, `portable_atomic`) is called through small functions whose
  contracts are trusted; what they compute is named, not restated. An atomic may change under any
  other holder, so the contracts in `observe` say which counter or value a call reads, stores or
  advances, and not what it holds between calls. The public proof functions state
  what holds of the library as a whole: that every parsed graph is sound (`valid`), that a flowchart
  shows everything declared, each element under an identifier of its own (`drawn`), that a link
  gives its diagram back (`out`), that composing keeps what nothing takes in (`resolve`),
  and so on.
- `tests/` runs the library on concrete sources.
- `app/` is the command line around it: reading files, asking, and writing what was decided.

## Options

`supervisor-mermaid [OPTIONS] [FILE|DIR]...`

```text
  inputs
        --deps             also scan the workspace's path dependencies (via
                           `cargo metadata`) — for graphs adopting another
                           crate's `#[dataflow]` fns

  what to draw
        --runtime          the running system: every signal and resource slot,
                   and no bring-up edges by default
        --states           node lifecycles, as a state diagram; with --signals,
                           one composite per node carrying its concrete gates
      --runtime-deps     with --runtime, restore every `deps:` edge as dotted
                   `spawn` context (overrides --anchor-uncoupled)
        --anchor-uncoupled with --runtime, restore dotted `deps:` edges that
                   touch a node with no runtime coupling or resource
    -s, --signals          draw declared and scanned dataflow as dotted signal
                           edges (the runtime view always draws solid edges)
    -f, --full-paths       label signals with the declared path, not the last
                           segment that tells them apart
            --hide-cfg         omit `#[cfg(...)]` predicates from labels and edges
    -x, --exclude <NAMES>  leave out these nodes or pools (comma separated), and
                           every edge that named them; repeatable
        --fragments        box each fragment's items in a subgraph
        --executors        box nodes by the executor they spawn through instead

  layout
    -d, --direction <DIR>  TD (default), TB, LR, RL or BT; reaches subgraphs and
                           composite states too
        --layout <ENGINE>  ask the renderer for a layout engine (`elk` is the
                           one worth asking for, on large graphs)
        --title <TEXT>     override the Mermaid and HTML page title
        --no-title         omit the Mermaid and HTML page title
        --max-fanout <N>   collapse a signal's readers into one aggregate box
                           once more than N nodes read it
        --h-spacing <N>    horizontal gap between boxes, in pixels (Mermaid
                           defaults to 50)
        --v-spacing <N>    vertical gap between boxes
    -l, --legend           add a key, after the graph in the layout
        --links <TPL>      add click links to each node's declaration; {file}
                           and {line} in the template are substituted

  output
    -m, --markdown         wrap each diagram in a mermaid code fence, and give
                           the legend a diagram of its own below the graph
        --select <WHICH>   render only this declaration, by name or by its
                           number in --list order
        --all              render every declaration, never prompting
        --list             list the declarations found, and stop
        --json             print the graph model as JSON instead of a diagram
                           (with every warning, under "warnings")
        --check            verify and stop: print the diagnostics, no diagram;
                           exit non-zero on any warning — CI's guard against
                           graphs and `#[dataflow]` fns drifting apart (what
                           the dataflow itself says is `supervisor-lint`)
        --live-url         print a mermaid.live share link per diagram
        --html <FILE>      write a self-rendering HTML page (mermaid.js CDN)
        --render <FILE>    render through `mmdc` (svg/png/pdf, by extension)
        --update <FILE>    rewrite the managed block in a markdown file
        --watch            re-run whenever an input file changes (needs a
                           destination: -o, --html, --render or --update)
    -o, --output <FILE>    write to a file instead of stdout
    -h, --help             show this
```

## supervisor-lint

```text
supervisor-lint [OPTIONS] [FILE|DIR]...

OPTIONS:
        --deps             also scan the workspace's path dependencies (via
                           `cargo metadata`) — for graphs adopting another
                           crate's `#[dataflow]` fns
        --only <CATS>      restrict to these categories (comma separated,
                           repeatable): `orphan-reads` (read, never written),
                           `dead-writes` (written, never read — `observed` /
                           `beat` entries and `beat_*` verbs are exempt, their
                           consumer is the supervisor), `public-gate` (a gated
                           static any module can reach around its gate), or
                           `all`, the default
        --allow <SIGNALS>  accept these signals' findings (comma separated,
                           repeatable; matched like signal labels, by
                           `::`-suffix); an entry suppressing nothing is
                           itself reported
    -h, --help             show this
```
