//! Verified tooling for supervisor task graphs.
//!
//! The library reads `supervisor_graph!`, `supervisor_fragment!` and `compose_graph!` declarations
//! from Rust source, scans the bodies of `#[dataflow]` functions for the signals they touch, and
//! draws or lints the task graph that results.
//!
//! - Grammar: [`token`], [`parse`], [`rust`], [`lists`], [`clauses`], [`node`], [`pool`], [`local`],
//!   [`graph`] and [`ast`]; [`valid`] has what every parsed graph keeps, [`spelled`] where in the
//!   text each part of it stands, and [`declared`] what is found and admitted.
//! - Sources: [`find`] has the declarations of a file, [`verbs`], [`scan`] and [`discover`] the
//!   dataflow in it, [`inputs`] the files themselves; [`imports`] has what an imported name stands
//!   for, [`traced`] which calls are found and whose they are, [`covered`] which functions are left
//!   out, and [`gathered`] which files are read.
//! - Graphs: [`resolve`] composes fragments, [`bindings`] ties items to functions, [`coupling`] has
//!   the signals, [`lint`] what is wrong with them, and [`model`] everything as plain data. What
//!   these keep is in [`composed`], [`entries`], [`onesided`], [`projected`] and [`faithful`].
//! - Diagrams: [`render`] draws flowcharts and [`states`] lifecycles, with [`options`], [`ids`],
//!   [`label`], [`labels`], [`legend`] and [`pen`]; [`out`] puts diagrams into links, pages and
//!   documents. [`drawn`], [`wired`] and [`facts`] have what every flowchart shows, [`sheet`] that it
//!   shows nothing else, and [`lifecycle`] what a state diagram shows.
//! - Tools: [`args`], [`usage`] and [`tool`] hold what the command-line tools decide; [`asked`] and
//!   [`delivered`] have what comes of their arguments.
//! - Signals at run time: [`observe`].
//!
//! Every executable type has a ghost type beside it, named with a final `V`, which its
//! `deep_view()` gives and which the contracts speak of.

use vstd::prelude::*;

pub mod args;
pub mod asked;
pub mod ast;
pub mod bindings;
pub mod clauses;
pub mod composed;
pub mod coupling;
pub mod covered;
pub mod declared;
pub mod delivered;
pub mod discover;
pub mod drawn;
pub mod entries;
pub mod facts;
pub mod faithful;
pub mod find;
pub mod gathered;
pub mod graph;
pub mod ids;
pub mod imports;
pub mod inputs;
pub mod json;
pub mod label;
pub mod labels;
pub mod legend;
pub mod lifecycle;
pub mod lint;
pub mod list;
pub mod lists;
pub mod local;
pub mod model;
pub mod node;
pub mod observe;
pub mod onesided;
pub mod options;
pub mod order;
pub mod out;
pub mod parse;
pub mod pen;
pub mod pool;
pub mod projected;
pub mod render;
pub mod resolve;
pub mod rust;
pub mod scan;
pub mod sheet;
pub mod spelled;
pub mod states;
pub mod text;
pub mod token;
pub mod tool;
pub mod traced;
pub mod usage;
pub mod valid;
pub mod verbs;
pub mod wired;

pub use crate::bindings::{coverage_warnings, expand_bundles};
pub use crate::discover::{
    scan_bundles, scan_fns, scan_gate_statics, scan_source, Bundle, Discovered, GateStatic,
};
pub use crate::find::{parse_source, Decl, DeclKind, Error};
pub use crate::lint::{dataflow_lints, gate_lints, LintCats};
pub use crate::model::{full_model, model_json, FullModel, TaskKind};
pub use crate::options::Options;
pub use crate::render::legend_diagram;
pub use crate::resolve::{exclude, resolve};
pub use crate::scan::{scan_dataflow, Access};

use crate::find::DeclV;
use crate::options::OptionsV;
use crate::render::flowchart;
use crate::states::state_diagram;

verus! {

/// A declaration as a diagram of the kind the options ask for.
pub open spec fn diagram(d: DeclV, o: OptionsV) -> Seq<char> {
    if o.states {
        state_diagram(d, o)
    } else {
        flowchart(d, o)
    }
}

/// Renders a declaration as a Mermaid diagram.
pub fn render(decl: &Decl, opts: &Options) -> (r: String)
    ensures
        r@ == diagram(decl.deep_view(), opts.deep_view()),
{
    if opts.states {
        crate::states::render(decl, opts)
    } else {
        crate::render::render(decl, opts)
    }
}

} // verus!
