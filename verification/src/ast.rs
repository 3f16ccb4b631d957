//! The parsed form of a graph declaration.

use vstd::prelude::*;
use vstd::string::*;

use crate::list::{put, Dup};
use crate::rust::{Attr, AttrV, ExprText, ExprTextV, IntLit, IntLitV, PathText, PathTextV};
use crate::text::{joined, join, replace, replaced, text};

verus! {

/// A clause value together with the attributes gating it.
#[derive(Debug)]
pub struct Gated<T> {
    /// The attributes gating the clause.
    pub cfg: Vec<Attr>,
    /// The clause value.
    pub value: T,
}

/// What a [`Gated`] value means.
pub struct GatedV<T> {
    pub cfg: Seq<AttrV>,
    pub value: T,
}

impl<T: DeepView> DeepView for Gated<T> {
    type V = GatedV<T::V>;

    open spec fn deep_view(&self) -> GatedV<T::V> {
        GatedV { cfg: self.cfg.deep_view(), value: self.value.deep_view() }
    }
}

impl<T: Dup> Dup for Gated<T> {
    fn dup(&self) -> (r: Self) {
        Gated { cfg: self.cfg.dup(), value: self.value.dup() }
    }
}

/// How the initial value of a `state:` clause is given.
#[derive(Debug)]
pub enum StateInit {
    /// An expression: `state: Type = expr`.
    Expr(ExprText),
    /// All zeroes: `state: zeroed Type`.
    Zeroed,
}

/// What a [`StateInit`] means.
pub enum StateInitV {
    Expr(ExprTextV),
    Zeroed,
}

impl DeepView for StateInit {
    type V = StateInitV;

    open spec fn deep_view(&self) -> StateInitV {
        match self {
            StateInit::Expr(x) => StateInitV::Expr(x.deep_view()),
            StateInit::Zeroed => StateInitV::Zeroed,
        }
    }
}

impl Dup for StateInit {
    fn dup(&self) -> (r: Self) {
        match self {
            StateInit::Expr(x) => StateInit::Expr(x.dup()),
            StateInit::Zeroed => StateInit::Zeroed,
        }
    }
}

/// A `state:` clause.
#[derive(Debug)]
pub struct StateDecl {
    /// The type, as tokens.
    pub ty: String,
    /// The initial value.
    pub init: StateInit,
}

/// What a [`StateDecl`] means.
pub struct StateDeclV {
    pub ty: Seq<char>,
    pub init: StateInitV,
}

impl DeepView for StateDecl {
    type V = StateDeclV;

    open spec fn deep_view(&self) -> StateDeclV {
        StateDeclV {
            ty: self.ty.deep_view(),
            init: self.init.deep_view(),
        }
    }
}

impl Dup for StateDecl {
    fn dup(&self) -> (r: Self) {
        StateDecl {
            ty: self.ty.dup(),
            init: self.init.dup(),
        }
    }
}

/// One entry of a `deps:` list.
#[derive(Debug)]
pub struct Dep {
    /// The attributes in front of it.
    pub cfg: Vec<Attr>,
    /// The node or pool depended on.
    pub ident: String,
    /// Marked `ready`.
    pub ready: bool,
    /// Marked `bound`.
    pub bound: bool,
}

/// What a [`Dep`] means.
pub struct DepV {
    pub cfg: Seq<AttrV>,
    pub ident: Seq<char>,
    pub ready: bool,
    pub bound: bool,
}

impl DeepView for Dep {
    type V = DepV;

    open spec fn deep_view(&self) -> DepV {
        DepV {
            cfg: self.cfg.deep_view(),
            ident: self.ident.deep_view(),
            ready: self.ready.deep_view(),
            bound: self.bound.deep_view(),
        }
    }
}

impl Dup for Dep {
    fn dup(&self) -> (r: Self) {
        Dep {
            cfg: self.cfg.dup(),
            ident: self.ident.dup(),
            ready: self.ready.dup(),
            bound: self.bound.dup(),
        }
    }
}

/// One entry of a `reads:` or `writes:` list.
#[derive(Debug)]
pub struct SignalDecl {
    /// The attributes in front of it.
    pub cfg: Vec<Attr>,
    /// The path of the signal.
    pub path: PathText,
    /// The array index, for an entry naming one element.
    pub index: Option<ExprText>,
    /// Tokens stand behind the index in its brackets; no parsed graph holds such an entry.
    pub loose: bool,
    /// Marked `observed`.
    pub observed: bool,
    /// Marked `beat`.
    pub beat: bool,
    /// Marked `veto`: this writer holds a contributor slot of a veto gate.
    pub veto: bool,
    /// The accessor given by `observed via ..`.
    pub via: Option<ExprText>,
}

/// What a [`SignalDecl`] means.
pub struct SignalDeclV {
    pub cfg: Seq<AttrV>,
    pub path: PathTextV,
    pub index: Option<ExprTextV>,
    pub loose: bool,
    pub observed: bool,
    pub beat: bool,
    pub veto: bool,
    pub via: Option<ExprTextV>,
}

impl DeepView for SignalDecl {
    type V = SignalDeclV;

    open spec fn deep_view(&self) -> SignalDeclV {
        SignalDeclV {
            cfg: self.cfg.deep_view(),
            path: self.path.deep_view(),
            index: self.index.deep_view(),
            loose: self.loose.deep_view(),
            observed: self.observed.deep_view(),
            beat: self.beat.deep_view(),
            veto: self.veto.deep_view(),
            via: self.via.deep_view(),
        }
    }
}

impl Dup for SignalDecl {
    fn dup(&self) -> (r: Self) {
        SignalDecl {
            cfg: self.cfg.dup(),
            path: self.path.dup(),
            index: self.index.dup(),
            loose: self.loose.dup(),
            observed: self.observed.dup(),
            beat: self.beat.dup(),
            veto: self.veto.dup(),
            via: self.via.dup(),
        }
    }
}

/// Where a task future comes from.
#[derive(Debug)]
pub enum TaskSource {
    /// A hand-written task function, by `spawn:`.
    Spawn(ExprText),
    /// A worker function wrapped by a generated shell, by `task:`.
    Shell(ExprText),
}

/// What a [`TaskSource`] means.
pub enum TaskSourceV {
    Spawn(ExprTextV),
    Shell(ExprTextV),
}

impl DeepView for TaskSource {
    type V = TaskSourceV;

    open spec fn deep_view(&self) -> TaskSourceV {
        match self {
            TaskSource::Spawn(x) => TaskSourceV::Spawn(x.deep_view()),
            TaskSource::Shell(x) => TaskSourceV::Shell(x.deep_view()),
        }
    }
}

impl Dup for TaskSource {
    fn dup(&self) -> (r: Self) {
        match self {
            TaskSource::Spawn(x) => TaskSource::Spawn(x.dup()),
            TaskSource::Shell(x) => TaskSource::Shell(x.dup()),
        }
    }
}

/// One entry of a `resources:` list.
#[derive(Debug)]
pub struct ResourceDecl {
    /// The attributes in front of it.
    pub cfg: Vec<Attr>,
    /// The resource slot.
    pub ident: String,
    /// The type in the slot, as tokens; a `divisible` budget has none.
    pub ty: Option<String>,
    /// Marked `local`.
    pub local: bool,
    /// Marked `consume`.
    pub consume: bool,
    /// Marked `shared`.
    pub shared: bool,
    /// Marked `serialized`: every holder runs on one executor.
    pub serialized: bool,
    /// Marked `divisible`: a budget each holder claims a share of.
    pub divisible: bool,
}

/// What a [`ResourceDecl`] means.
pub struct ResourceDeclV {
    pub cfg: Seq<AttrV>,
    pub ident: Seq<char>,
    pub ty: Option<Seq<char>>,
    pub local: bool,
    pub consume: bool,
    pub shared: bool,
    pub serialized: bool,
    pub divisible: bool,
}

impl DeepView for ResourceDecl {
    type V = ResourceDeclV;

    open spec fn deep_view(&self) -> ResourceDeclV {
        ResourceDeclV {
            cfg: self.cfg.deep_view(),
            ident: self.ident.deep_view(),
            ty: self.ty.deep_view(),
            local: self.local.deep_view(),
            consume: self.consume.deep_view(),
            shared: self.shared.deep_view(),
            serialized: self.serialized.deep_view(),
            divisible: self.divisible.deep_view(),
        }
    }
}

impl Dup for ResourceDecl {
    fn dup(&self) -> (r: Self) {
        ResourceDecl {
            cfg: self.cfg.dup(),
            ident: self.ident.dup(),
            ty: self.ty.dup(),
            local: self.local.dup(),
            consume: self.consume.dup(),
            shared: self.shared.dup(),
            serialized: self.serialized.dup(),
            divisible: self.divisible.dup(),
        }
    }
}

/// A function adopted by a `dataflow:` clause.
#[derive(Debug)]
pub struct AdoptedFn {
    /// The attributes in front of it.
    pub cfg: Vec<Attr>,
    /// The path of the function.
    pub path: PathText,
}

/// What a [`AdoptedFn`] means.
pub struct AdoptedFnV {
    pub cfg: Seq<AttrV>,
    pub path: PathTextV,
}

impl DeepView for AdoptedFn {
    type V = AdoptedFnV;

    open spec fn deep_view(&self) -> AdoptedFnV {
        AdoptedFnV {
            cfg: self.cfg.deep_view(),
            path: self.path.deep_view(),
        }
    }
}

impl Dup for AdoptedFn {
    fn dup(&self) -> (r: Self) {
        AdoptedFn {
            cfg: self.cfg.dup(),
            path: self.path.dup(),
        }
    }
}

/// One entry of a `provides:` list.
#[derive(Debug)]
pub struct ProvideDecl {
    /// The attributes in front of it.
    pub cfg: Vec<Attr>,
    /// The resource slot it fills.
    pub ident: String,
}

/// What a [`ProvideDecl`] means.
pub struct ProvideDeclV {
    pub cfg: Seq<AttrV>,
    pub ident: Seq<char>,
}

impl DeepView for ProvideDecl {
    type V = ProvideDeclV;

    open spec fn deep_view(&self) -> ProvideDeclV {
        ProvideDeclV {
            cfg: self.cfg.deep_view(),
            ident: self.ident.deep_view(),
        }
    }
}

impl Dup for ProvideDecl {
    fn dup(&self) -> (r: Self) {
        ProvideDecl {
            cfg: self.cfg.dup(),
            ident: self.ident.dup(),
        }
    }
}

/// A `node NAME = Mode, ..;` declaration.
#[derive(Debug)]
pub struct NodeItem {
    /// The attributes in front of it.
    pub cfg: Vec<Attr>,
    /// The name.
    pub ident: String,
    /// The line of the name.
    pub line: usize,
    /// The lifecycle mode.
    pub mode: String,
    /// The `deps:` list.
    pub deps: Vec<Dep>,
    /// The task source; none for a parked node.
    pub source: Option<TaskSource>,
    /// The `pool_size:` literal.
    pub pool_size: Option<IntLit>,
    /// The `resources:` list.
    pub resources: Vec<ResourceDecl>,
    /// The `disabled` marker.
    pub disabled: Option<Gated<()>>,
    /// The executor, named by the item or by the graph default.
    pub executor: Option<String>,
    /// The executor is the graph default.
    pub executor_defaulted: bool,
    /// The `slot_timeout:` milliseconds.
    pub slot_timeout: Option<Gated<IntLit>>,
    /// The `ack_timeout:` milliseconds.
    pub ack_timeout: Option<Gated<IntLit>>,
    /// The `beat_timeout:` milliseconds.
    pub beat_timeout: Option<Gated<IntLit>>,
    /// The `beat_window:` count.
    pub beat_window: Option<Gated<IntLit>>,
    /// The `ready_on_write` marker.
    pub ready_on_write: Option<Gated<()>>,
    /// The `reads:` list.
    pub reads: Vec<SignalDecl>,
    /// The `writes:` list.
    pub writes: Vec<SignalDecl>,
    /// The `exit:` type, as tokens.
    pub exit: Option<String>,
    /// The `state:` clause.
    pub state: Option<StateDecl>,
    /// Marked `cancel`.
    pub cancel: bool,
    /// The `discover` marker.
    pub discover: Option<Gated<()>>,
    /// Functions adopted by `dataflow:`.
    pub dataflow: Vec<AdoptedFn>,
    /// The `provides:` list.
    pub provides: Vec<ProvideDecl>,
    /// The fragment it belongs to.
    pub fragment: Option<String>,
}

/// What a [`NodeItem`] means.
pub struct NodeItemV {
    pub cfg: Seq<AttrV>,
    pub ident: Seq<char>,
    pub line: usize,
    pub mode: Seq<char>,
    pub deps: Seq<DepV>,
    pub source: Option<TaskSourceV>,
    pub pool_size: Option<IntLitV>,
    pub resources: Seq<ResourceDeclV>,
    pub disabled: Option<GatedV<()>>,
    pub executor: Option<Seq<char>>,
    pub executor_defaulted: bool,
    pub slot_timeout: Option<GatedV<IntLitV>>,
    pub ack_timeout: Option<GatedV<IntLitV>>,
    pub beat_timeout: Option<GatedV<IntLitV>>,
    pub beat_window: Option<GatedV<IntLitV>>,
    pub ready_on_write: Option<GatedV<()>>,
    pub reads: Seq<SignalDeclV>,
    pub writes: Seq<SignalDeclV>,
    pub exit: Option<Seq<char>>,
    pub state: Option<StateDeclV>,
    pub cancel: bool,
    pub discover: Option<GatedV<()>>,
    pub dataflow: Seq<AdoptedFnV>,
    pub provides: Seq<ProvideDeclV>,
    pub fragment: Option<Seq<char>>,
}

impl DeepView for NodeItem {
    type V = NodeItemV;

    open spec fn deep_view(&self) -> NodeItemV {
        NodeItemV {
            cfg: self.cfg.deep_view(),
            ident: self.ident.deep_view(),
            line: self.line.deep_view(),
            mode: self.mode.deep_view(),
            deps: self.deps.deep_view(),
            source: self.source.deep_view(),
            pool_size: self.pool_size.deep_view(),
            resources: self.resources.deep_view(),
            disabled: self.disabled.deep_view(),
            executor: self.executor.deep_view(),
            executor_defaulted: self.executor_defaulted.deep_view(),
            slot_timeout: self.slot_timeout.deep_view(),
            ack_timeout: self.ack_timeout.deep_view(),
            beat_timeout: self.beat_timeout.deep_view(),
            beat_window: self.beat_window.deep_view(),
            ready_on_write: self.ready_on_write.deep_view(),
            reads: self.reads.deep_view(),
            writes: self.writes.deep_view(),
            exit: self.exit.deep_view(),
            state: self.state.deep_view(),
            cancel: self.cancel.deep_view(),
            discover: self.discover.deep_view(),
            dataflow: self.dataflow.deep_view(),
            provides: self.provides.deep_view(),
            fragment: self.fragment.deep_view(),
        }
    }
}

impl Dup for NodeItem {
    fn dup(&self) -> (r: Self) {
        NodeItem {
            cfg: self.cfg.dup(),
            ident: self.ident.dup(),
            line: self.line.dup(),
            mode: self.mode.dup(),
            deps: self.deps.dup(),
            source: self.source.dup(),
            pool_size: self.pool_size.dup(),
            resources: self.resources.dup(),
            disabled: self.disabled.dup(),
            executor: self.executor.dup(),
            executor_defaulted: self.executor_defaulted.dup(),
            slot_timeout: self.slot_timeout.dup(),
            ack_timeout: self.ack_timeout.dup(),
            beat_timeout: self.beat_timeout.dup(),
            beat_window: self.beat_window.dup(),
            ready_on_write: self.ready_on_write.dup(),
            reads: self.reads.dup(),
            writes: self.writes.dup(),
            exit: self.exit.dup(),
            state: self.state.dup(),
            cancel: self.cancel.dup(),
            discover: self.discover.dup(),
            dataflow: self.dataflow.dup(),
            provides: self.provides.dup(),
            fragment: self.fragment.dup(),
        }
    }
}

/// An `executor NAME;` declaration.
#[derive(Debug)]
pub struct ExecutorItem {
    /// The attributes in front of it.
    pub cfg: Vec<Attr>,
    /// The name.
    pub ident: String,
    /// The line of the name.
    pub line: usize,
    /// Declared `default executor NAME;`.
    pub default: bool,
}

/// What a [`ExecutorItem`] means.
pub struct ExecutorItemV {
    pub cfg: Seq<AttrV>,
    pub ident: Seq<char>,
    pub line: usize,
    pub default: bool,
}

impl DeepView for ExecutorItem {
    type V = ExecutorItemV;

    open spec fn deep_view(&self) -> ExecutorItemV {
        ExecutorItemV {
            cfg: self.cfg.deep_view(),
            ident: self.ident.deep_view(),
            line: self.line.deep_view(),
            default: self.default.deep_view(),
        }
    }
}

impl Dup for ExecutorItem {
    fn dup(&self) -> (r: Self) {
        ExecutorItem {
            cfg: self.cfg.dup(),
            ident: self.ident.dup(),
            line: self.line.dup(),
            default: self.default.dup(),
        }
    }
}

/// A `pool NAME = [Mode, ..], ..;` declaration.
#[derive(Debug)]
pub struct PoolItem {
    /// The attributes in front of it.
    pub cfg: Vec<Attr>,
    /// The name.
    pub ident: String,
    /// The line of the name.
    pub line: usize,
    /// The member lifecycle modes.
    pub modes: Vec<String>,
    /// The `deps:` list.
    pub deps: Vec<Dep>,
    /// The task source.
    pub source: TaskSource,
    /// The scaling policy.
    pub policy: ExprText,
    /// The explicit policy type, as tokens.
    pub policy_ty: Option<String>,
    /// The executor, named by the item or by the graph default.
    pub executor: Option<String>,
    /// The executor is the graph default.
    pub executor_defaulted: bool,
    /// The `resources:` list.
    pub resources: Vec<ResourceDecl>,
    /// The `slot_timeout:` milliseconds.
    pub slot_timeout: Option<Gated<IntLit>>,
    /// The `ack_timeout:` milliseconds.
    pub ack_timeout: Option<Gated<IntLit>>,
    /// The `reads:` list.
    pub reads: Vec<SignalDecl>,
    /// The `writes:` list.
    pub writes: Vec<SignalDecl>,
    /// The floor.
    pub min: ExprText,
    /// The ceiling.
    pub max: ExprText,
    /// The `state:` clause.
    pub state: Option<StateDecl>,
    /// Marked `cancel`.
    pub cancel: bool,
    /// The `discover` marker.
    pub discover: Option<Gated<()>>,
    /// Functions adopted by `dataflow:`.
    pub dataflow: Vec<AdoptedFn>,
    /// The fragment it belongs to.
    pub fragment: Option<String>,
}

/// What a [`PoolItem`] means.
pub struct PoolItemV {
    pub cfg: Seq<AttrV>,
    pub ident: Seq<char>,
    pub line: usize,
    pub modes: Seq<Seq<char>>,
    pub deps: Seq<DepV>,
    pub source: TaskSourceV,
    pub policy: ExprTextV,
    pub policy_ty: Option<Seq<char>>,
    pub executor: Option<Seq<char>>,
    pub executor_defaulted: bool,
    pub resources: Seq<ResourceDeclV>,
    pub slot_timeout: Option<GatedV<IntLitV>>,
    pub ack_timeout: Option<GatedV<IntLitV>>,
    pub reads: Seq<SignalDeclV>,
    pub writes: Seq<SignalDeclV>,
    pub min: ExprTextV,
    pub max: ExprTextV,
    pub state: Option<StateDeclV>,
    pub cancel: bool,
    pub discover: Option<GatedV<()>>,
    pub dataflow: Seq<AdoptedFnV>,
    pub fragment: Option<Seq<char>>,
}

impl DeepView for PoolItem {
    type V = PoolItemV;

    open spec fn deep_view(&self) -> PoolItemV {
        PoolItemV {
            cfg: self.cfg.deep_view(),
            ident: self.ident.deep_view(),
            line: self.line.deep_view(),
            modes: self.modes.deep_view(),
            deps: self.deps.deep_view(),
            source: self.source.deep_view(),
            policy: self.policy.deep_view(),
            policy_ty: self.policy_ty.deep_view(),
            executor: self.executor.deep_view(),
            executor_defaulted: self.executor_defaulted.deep_view(),
            resources: self.resources.deep_view(),
            slot_timeout: self.slot_timeout.deep_view(),
            ack_timeout: self.ack_timeout.deep_view(),
            reads: self.reads.deep_view(),
            writes: self.writes.deep_view(),
            min: self.min.deep_view(),
            max: self.max.deep_view(),
            state: self.state.deep_view(),
            cancel: self.cancel.deep_view(),
            discover: self.discover.deep_view(),
            dataflow: self.dataflow.deep_view(),
            fragment: self.fragment.deep_view(),
        }
    }
}

impl Dup for PoolItem {
    fn dup(&self) -> (r: Self) {
        PoolItem {
            cfg: self.cfg.dup(),
            ident: self.ident.dup(),
            line: self.line.dup(),
            modes: self.modes.dup(),
            deps: self.deps.dup(),
            source: self.source.dup(),
            policy: self.policy.dup(),
            policy_ty: self.policy_ty.dup(),
            executor: self.executor.dup(),
            executor_defaulted: self.executor_defaulted.dup(),
            resources: self.resources.dup(),
            slot_timeout: self.slot_timeout.dup(),
            ack_timeout: self.ack_timeout.dup(),
            reads: self.reads.dup(),
            writes: self.writes.dup(),
            min: self.min.dup(),
            max: self.max.dup(),
            state: self.state.dup(),
            cancel: self.cancel.dup(),
            discover: self.discover.dup(),
            dataflow: self.dataflow.dup(),
            fragment: self.fragment.dup(),
        }
    }
}

/// A top-level item of a graph.
#[derive(Debug)]
pub enum Item {
    /// A supervised node.
    Node(NodeItem),
    /// An elastic pool.
    Pool(PoolItem),
    /// A named executor.
    Executor(ExecutorItem),
}

/// What a [`Item`] means.
pub enum ItemV {
    Node(NodeItemV),
    Pool(PoolItemV),
    Executor(ExecutorItemV),
}

impl DeepView for Item {
    type V = ItemV;

    open spec fn deep_view(&self) -> ItemV {
        match self {
            Item::Node(x) => ItemV::Node(x.deep_view()),
            Item::Pool(x) => ItemV::Pool(x.deep_view()),
            Item::Executor(x) => ItemV::Executor(x.deep_view()),
        }
    }
}

impl Dup for Item {
    fn dup(&self) -> (r: Self) {
        match self {
            Item::Node(x) => Item::Node(x.dup()),
            Item::Pool(x) => Item::Pool(x.dup()),
            Item::Executor(x) => Item::Executor(x.dup()),
        }
    }
}

/// The contents of a graph or fragment body.
#[derive(Debug)]
pub struct GraphSpec {
    /// The `name:`.
    pub name: Option<String>,
    /// The default `observe writes:` accessor.
    pub observe_writes: Option<ExprText>,
    /// The default `observe reads:` accessor.
    pub observe_reads: Option<ExprText>,
    /// The nodes, pools and executors.
    pub items: Vec<Item>,
}

/// What a [`GraphSpec`] means.
pub struct GraphSpecV {
    pub name: Option<Seq<char>>,
    pub observe_writes: Option<ExprTextV>,
    pub observe_reads: Option<ExprTextV>,
    pub items: Seq<ItemV>,
}

impl DeepView for GraphSpec {
    type V = GraphSpecV;

    open spec fn deep_view(&self) -> GraphSpecV {
        GraphSpecV {
            name: self.name.deep_view(),
            observe_writes: self.observe_writes.deep_view(),
            observe_reads: self.observe_reads.deep_view(),
            items: self.items.deep_view(),
        }
    }
}

impl Dup for GraphSpec {
    fn dup(&self) -> (r: Self) {
        GraphSpec {
            name: self.name.dup(),
            observe_writes: self.observe_writes.dup(),
            observe_reads: self.observe_reads.dup(),
            items: self.items.dup(),
        }
    }
}

/// A path in its `::`-separated form, without generic arguments.
pub open spec fn path_string(p: PathTextV) -> Seq<char> {
    (if p.leading {
        "::"@
    } else {
        ""@
    }) + joined(p.segments, "::"@)
}

/// Renders a path in its `::`-separated form.
pub fn path_to_string(p: &PathText) -> (r: String)
    ensures
        r@ == path_string(p.deep_view()),
{
    let mut out = text(if p.leading {
        "::"
    } else {
        ""
    });
    let names = join(&p.segments, "::");
    out.append(names.as_str());
    out
}

/// A text without its spaces.
pub open spec fn stripped(s: Seq<char>) -> Seq<char> {
    replaced(s, " "@, ""@)
}

pub fn strip(s: &str) -> (r: String)
    ensures
        r@ == stripped(s@),
{
    proof {
        reveal_strlit(" ");
    }
    replace(s, " ", "")
}

/// The canonical name of a signal entry: its path, and its index in brackets.
pub open spec fn signal_name(s: SignalDeclV) -> Seq<char> {
    match s.index {
        Some(i) => path_string(s.path) + "["@ + stripped(i.text) + "]"@,
        None => path_string(s.path),
    }
}

/// The tokens that name the target of a signal entry.
pub open spec fn signal_target(s: SignalDeclV) -> Seq<char> {
    match s.index {
        Some(i) => s.path.text + "["@ + i.text + "]"@,
        None => s.path.text,
    }
}

impl SignalDecl {
    /// The canonical name of the signal.
    pub fn display(&self) -> (r: String)
        ensures
            r@ == signal_name(self.deep_view()),
    {
        let mut out = path_to_string(&self.path);
        if let Some(i) = &self.index {
            let inner = strip(i.text.as_str());
            out.append("[");
            out.append(inner.as_str());
            out.append("]");
        }
        out
    }

    /// The tokens that name the signal, with its index.
    pub fn target(&self) -> (r: String)
        ensures
            r@ == signal_target(self.deep_view()),
    {
        let mut out = self.path.text.clone();
        if let Some(i) = &self.index {
            out.append("[");
            out.append(i.text.as_str());
            out.append("]");
        }
        out
    }
}

/// The kind of a shared slot, for comparison between its declarations.
pub open spec fn shared_kind(r: ResourceDeclV) -> Seq<char> {
    (if r.local {
        "local "@
    } else {
        ""@
    }) + "shared "@ + (match r.ty {
        Some(t) => t,
        None => ""@,
    })
}

impl ResourceDecl {
    /// The kind of a shared slot, in words.
    pub fn shared_signature(&self) -> (r: String)
        ensures
            r@ == shared_kind(self.deep_view()),
    {
        let mut out = text(if self.local {
            "local "
        } else {
            ""
        });
        out.append("shared ");
        match &self.ty {
            Some(t) => out.append(t.as_str()),
            None => out.append(""),
        }
        out
    }
}

/// The resources an item declares.
pub open spec fn resources_of(item: ItemV) -> Seq<ResourceDeclV> {
    match item {
        ItemV::Node(n) => n.resources,
        ItemV::Pool(p) => p.resources,
        ItemV::Executor(_) => Seq::empty(),
    }
}

/// The deps an item declares.
pub open spec fn deps_of(item: ItemV) -> Seq<DepV> {
    match item {
        ItemV::Node(n) => n.deps,
        ItemV::Pool(p) => p.deps,
        ItemV::Executor(_) => Seq::empty(),
    }
}

/// The signals an item reads.
pub open spec fn reads_of(item: ItemV) -> Seq<SignalDeclV> {
    match item {
        ItemV::Node(n) => n.reads,
        ItemV::Pool(p) => p.reads,
        ItemV::Executor(_) => Seq::empty(),
    }
}

/// The signals an item writes.
pub open spec fn writes_of(item: ItemV) -> Seq<SignalDeclV> {
    match item {
        ItemV::Node(n) => n.writes,
        ItemV::Pool(p) => p.writes,
        ItemV::Executor(_) => Seq::empty(),
    }
}

/// The name of a node or pool.
pub open spec fn boxed_name(item: ItemV) -> Option<Seq<char>> {
    match item {
        ItemV::Node(n) => Some(n.ident),
        ItemV::Pool(p) => Some(p.ident),
        ItemV::Executor(_) => None,
    }
}

/// The resources an item declares; an executor declares none.
pub fn item_resources(item: &Item) -> (r: Vec<ResourceDecl>)
    ensures
        r.deep_view() == resources_of(item.deep_view()),
{
    match item {
        Item::Node(n) => n.resources.dup(),
        Item::Pool(p) => p.resources.dup(),
        Item::Executor(_) => {
            let none: Vec<ResourceDecl> = Vec::new();
            assert(none.deep_view() == Seq::<ResourceDeclV>::empty());
            none
        },
    }
}

/// Signal entries, each with whether it writes.
pub open spec fn entries_with(write: bool, sigs: Seq<SignalDeclV>) -> Seq<(bool, SignalDeclV)> {
    Seq::new(sigs.len(), |i: int| (write, sigs[i]))
}

/// Every signal entry of an item: what it reads, then what it writes.
pub open spec fn signal_entries(item: ItemV) -> Seq<(bool, SignalDeclV)> {
    entries_with(false, reads_of(item)) + entries_with(true, writes_of(item))
}

fn add_entries(write: bool, sigs: &Vec<SignalDecl>, out: &mut Vec<(bool, SignalDecl)>)
    ensures
        final(out).deep_view() == old(out).deep_view() + entries_with(write, sigs.deep_view()),
{
    let ghost all = entries_with(write, sigs.deep_view());
    let ghost start = out.deep_view();
    let mut i: usize = 0;
    assert(start + all.take(0) == start);
    while i < sigs.len()
        invariant
            i <= sigs@.len(),
            all == entries_with(write, sigs.deep_view()),
            out.deep_view() == start + all.take(i as int),
        decreases sigs@.len() - i,
    {
        put(out, (write, sigs[i].dup()));
        i = i + 1;
        assert(out.deep_view() == start + all.take(i as int));
    }
    assert(all.take(all.len() as int) == all);
}

/// Every signal entry of an item, with whether it writes: what it reads, then what it writes.
pub fn item_signal_entries(item: &Item) -> (r: Vec<(bool, SignalDecl)>)
    ensures
        r.deep_view() == signal_entries(item.deep_view()),
{
    let mut out: Vec<(bool, SignalDecl)> = Vec::new();
    assert(out.deep_view() == Seq::<(bool, SignalDeclV)>::empty());
    match item {
        Item::Node(n) => {
            add_entries(false, &n.reads, &mut out);
            add_entries(true, &n.writes, &mut out);
        },
        Item::Pool(p) => {
            add_entries(false, &p.reads, &mut out);
            add_entries(true, &p.writes, &mut out);
        },
        Item::Executor(_) => {},
    }
    assert(out.deep_view() == signal_entries(item.deep_view()));
    out
}

/// The name of a node or pool and the attributes in front of it.
pub open spec fn ident_cfg(item: ItemV) -> Option<(Seq<char>, Seq<AttrV>)> {
    match item {
        ItemV::Node(n) => Some((n.ident, n.cfg)),
        ItemV::Pool(p) => Some((p.ident, p.cfg)),
        ItemV::Executor(_) => None,
    }
}

/// The name of a node or pool and the attributes in front of it; nothing for an executor.
pub fn item_ident_cfg(item: &Item) -> (r: Option<(String, Vec<Attr>)>)
    ensures
        r.deep_view() == ident_cfg(item.deep_view()),
{
    match item {
        Item::Node(n) => Some((n.ident.dup(), n.cfg.dup())),
        Item::Pool(p) => Some((p.ident.dup(), p.cfg.dup())),
        Item::Executor(_) => None,
    }
}

/// A text in lower case, as `str::to_lowercase` has it.
pub uninterp spec fn lower(s: Seq<char>) -> Seq<char>;

/// `str::to_lowercase`: the text in lower case depends on the text alone.
#[verifier::external_body]
fn to_lower(s: &str) -> (r: String)
    ensures
        r@ == lower(s@),
{
    s.to_lowercase()
}

/// A text with hyphens in place of underscores.
pub open spec fn hyphenated(s: Seq<char>) -> Seq<char> {
    replaced(s, "_"@, "-"@)
}

/// Puts hyphens in place of underscores.
pub fn hyphenate(s: &str) -> (r: String)
    ensures
        r@ == hyphenated(s@),
{
    proof {
        reveal_strlit("_");
    }
    replace(s, "_", "-")
}

/// An identifier as a lower-case, hyphenated text, for names of files.
pub fn name_string(ident: &str) -> (r: String)
    ensures
        r@ == hyphenated(lower(ident@)),
{
    let t = to_lower(ident);
    hyphenate(t.as_str())
}

} // verus!
