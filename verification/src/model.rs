//! A typed projection of parsed graph declarations, and the same as JSON.

use vstd::prelude::*;
use vstd::string::*;

use crate::ast::{
    signal_name, strip, stripped, AdoptedFn, AdoptedFnV, Dep, DepV, Gated, GatedV, Item, ItemV,
    NodeItem, NodeItemV, PoolItem, PoolItemV, ProvideDecl, ProvideDeclV, ResourceDecl, ResourceDeclV,
    SignalDecl, SignalDeclV, StateDecl, StateDeclV, StateInit, StateInitV, TaskSource, TaskSourceV,
};
use crate::discover::{Discovered, DiscoveredV};
use crate::find::{macro_name, Decl, DeclV};
use crate::json::{
    arr, field, new_fields, no_fields, obj, opt_string, string, string_arr, string_or_null, strings,
    Json, JsonV,
};
use crate::list::{put, Dup};
use crate::lists::{is_cfg, is_cfg_list};
use crate::rust::{Attr, AttrV, ExprText, ExprTextV, IntLit, IntLitV};
use crate::text::{join, joined, text};

verus! {

/// The predicates of the `cfg` attributes from number `i` on, without spaces, behind `acc`.
pub open spec fn cfg_texts_from(attrs: Seq<AttrV>, i: int, acc: Seq<Seq<char>>) -> Seq<Seq<char>>
    decreases attrs.len() - i,
{
    if i >= attrs.len() {
        acc
    } else {
        cfg_texts_from(
            attrs,
            i + 1,
            if is_cfg(attrs[i]) {
                acc.push(stripped(attrs[i].list->0))
            } else {
                acc
            },
        )
    }
}

/// The predicates of `cfg` attributes, without spaces.
pub open spec fn cfg_texts(attrs: Seq<AttrV>) -> Seq<Seq<char>> {
    cfg_texts_from(attrs, 0, Seq::empty())
}

pub fn read_cfg_texts(attrs: &Vec<Attr>) -> (r: Vec<String>)
    ensures
        r.deep_view() == cfg_texts(attrs.deep_view()),
{
    let ghost a = attrs.deep_view();
    let mut out: Vec<String> = Vec::new();
    assert(out.deep_view() == Seq::<Seq<char>>::empty());
    let mut i: usize = 0;
    while i < attrs.len()
        invariant
            i <= attrs@.len(),
            a == attrs.deep_view(),
            cfg_texts(a) == cfg_texts_from(a, i as int, out.deep_view()),
        decreases attrs@.len() - i,
    {
        if is_cfg_list(&attrs[i]) {
            if let Some(list) = &attrs[i].list {
                let t = strip(list.as_str());
                put(&mut out, t);
            }
        }
        i = i + 1;
    }
    out
}

/// An integer clause.
#[derive(Debug)]
pub struct LitValue {
    /// The `cfg` predicates in front of it.
    pub cfg: Vec<String>,
    /// The literal.
    pub lit: IntLit,
    /// Its tokens.
    pub text: String,
}

/// What a [`LitValue`] means.
pub struct LitValueV {
    pub cfg: Seq<Seq<char>>,
    pub lit: IntLitV,
    pub text: Seq<char>,
}

impl DeepView for LitValue {
    type V = LitValueV;

    open spec fn deep_view(&self) -> LitValueV {
        LitValueV {
            cfg: self.cfg.deep_view(),
            lit: self.lit.deep_view(),
            text: self.text.deep_view(),
        }
    }
}

impl Dup for LitValue {
    fn dup(&self) -> (r: Self) {
        LitValue {
            cfg: self.cfg.dup(),
            lit: self.lit.dup(),
            text: self.text.dup(),
        }
    }
}

impl LitValue {
    /// The value as a `u64`, where the literal is one.
    pub fn as_u64(&self) -> (r: Option<u64>)
        ensures
            r == self.deep_view().lit.value,
    {
        self.lit.value
    }
}

/// An expression clause.
#[derive(Debug)]
pub struct ExprValue {
    /// The expression.
    pub expr: ExprText,
    /// Its tokens.
    pub text: String,
}

/// What a [`ExprValue`] means.
pub struct ExprValueV {
    pub expr: ExprTextV,
    pub text: Seq<char>,
}

impl DeepView for ExprValue {
    type V = ExprValueV;

    open spec fn deep_view(&self) -> ExprValueV {
        ExprValueV {
            expr: self.expr.deep_view(),
            text: self.text.deep_view(),
        }
    }
}

impl Dup for ExprValue {
    fn dup(&self) -> (r: Self) {
        ExprValue {
            expr: self.expr.dup(),
            text: self.text.dup(),
        }
    }
}

/// A type clause.
#[derive(Debug)]
pub struct TypeValue {
    /// Its tokens.
    pub text: String,
}

/// What a [`TypeValue`] means.
pub struct TypeValueV {
    pub text: Seq<char>,
}

impl DeepView for TypeValue {
    type V = TypeValueV;

    open spec fn deep_view(&self) -> TypeValueV {
        TypeValueV {
            text: self.text.deep_view(),
        }
    }
}

impl Dup for TypeValue {
    fn dup(&self) -> (r: Self) {
        TypeValue {
            text: self.text.dup(),
        }
    }
}

/// A `deps:` entry.
#[derive(Debug)]
pub struct DepModel {
    /// What is depended on.
    pub name: String,
    /// Marked `ready`.
    pub ready: bool,
    /// Marked `bound`.
    pub bound: bool,
    /// The `cfg` predicates in front of it.
    pub cfg: Vec<String>,
}

/// What a [`DepModel`] means.
pub struct DepModelV {
    pub name: Seq<char>,
    pub ready: bool,
    pub bound: bool,
    pub cfg: Seq<Seq<char>>,
}

impl DeepView for DepModel {
    type V = DepModelV;

    open spec fn deep_view(&self) -> DepModelV {
        DepModelV {
            name: self.name.deep_view(),
            ready: self.ready.deep_view(),
            bound: self.bound.deep_view(),
            cfg: self.cfg.deep_view(),
        }
    }
}

impl Dup for DepModel {
    fn dup(&self) -> (r: Self) {
        DepModel {
            name: self.name.dup(),
            ready: self.ready.dup(),
            bound: self.bound.dup(),
            cfg: self.cfg.dup(),
        }
    }
}

/// A `reads:` or `writes:` entry.
#[derive(Debug)]
pub struct SignalModel {
    /// The signal.
    pub path: String,
    /// Marked `observed`.
    pub observed: bool,
    /// Marked `beat`.
    pub beat: bool,
    /// Marked `veto`.
    pub veto: bool,
    /// The accessor, as tokens.
    pub via: Option<String>,
    /// The `cfg` predicates in front of it.
    pub cfg: Vec<String>,
}

/// What a [`SignalModel`] means.
pub struct SignalModelV {
    pub path: Seq<char>,
    pub observed: bool,
    pub beat: bool,
    pub veto: bool,
    pub via: Option<Seq<char>>,
    pub cfg: Seq<Seq<char>>,
}

impl DeepView for SignalModel {
    type V = SignalModelV;

    open spec fn deep_view(&self) -> SignalModelV {
        SignalModelV {
            path: self.path.deep_view(),
            observed: self.observed.deep_view(),
            beat: self.beat.deep_view(),
            veto: self.veto.deep_view(),
            via: self.via.deep_view(),
            cfg: self.cfg.deep_view(),
        }
    }
}

impl Dup for SignalModel {
    fn dup(&self) -> (r: Self) {
        SignalModel {
            path: self.path.dup(),
            observed: self.observed.dup(),
            beat: self.beat.dup(),
            veto: self.veto.dup(),
            via: self.via.dup(),
            cfg: self.cfg.dup(),
        }
    }
}

/// A `resources:` entry.
#[derive(Debug)]
pub struct ResourceModel {
    /// The slot.
    pub name: String,
    /// Marked `local`.
    pub local: bool,
    /// Marked `consume`.
    pub consume: bool,
    /// Marked `shared`.
    pub shared: bool,
    /// Marked `divisible`.
    pub divisible: bool,
    /// Marked `serialized`.
    pub serialized: bool,
    /// The `cfg` predicates in front of it.
    pub cfg: Vec<String>,
}

/// What a [`ResourceModel`] means.
pub struct ResourceModelV {
    pub name: Seq<char>,
    pub local: bool,
    pub consume: bool,
    pub shared: bool,
    pub divisible: bool,
    pub serialized: bool,
    pub cfg: Seq<Seq<char>>,
}

impl DeepView for ResourceModel {
    type V = ResourceModelV;

    open spec fn deep_view(&self) -> ResourceModelV {
        ResourceModelV {
            name: self.name.deep_view(),
            local: self.local.deep_view(),
            consume: self.consume.deep_view(),
            shared: self.shared.deep_view(),
            divisible: self.divisible.deep_view(),
            serialized: self.serialized.deep_view(),
            cfg: self.cfg.deep_view(),
        }
    }
}

impl Dup for ResourceModel {
    fn dup(&self) -> (r: Self) {
        ResourceModel {
            name: self.name.dup(),
            local: self.local.dup(),
            consume: self.consume.dup(),
            shared: self.shared.dup(),
            divisible: self.divisible.dup(),
            serialized: self.serialized.dup(),
            cfg: self.cfg.dup(),
        }
    }
}

/// A `provides:` entry.
#[derive(Debug)]
pub struct ProvideModel {
    /// The slot it fills.
    pub name: String,
    /// The `cfg` predicates in front of it.
    pub cfg: Vec<String>,
}

/// What a [`ProvideModel`] means.
pub struct ProvideModelV {
    pub name: Seq<char>,
    pub cfg: Seq<Seq<char>>,
}

impl DeepView for ProvideModel {
    type V = ProvideModelV;

    open spec fn deep_view(&self) -> ProvideModelV {
        ProvideModelV {
            name: self.name.deep_view(),
            cfg: self.cfg.deep_view(),
        }
    }
}

impl Dup for ProvideModel {
    fn dup(&self) -> (r: Self) {
        ProvideModel {
            name: self.name.dup(),
            cfg: self.cfg.dup(),
        }
    }
}

/// Where a task body comes from.
#[derive(Clone, Copy, Debug, PartialEq, Eq, Structural)]
pub enum TaskKind {
    /// A hand-written task function, by `spawn:`.
    Spawn,
    /// A worker function wrapped by a generated shell, by `task:`.
    Shell,
}

impl DeepView for TaskKind {
    type V = TaskKind;

    open spec fn deep_view(&self) -> TaskKind {
        *self
    }
}

impl Dup for TaskKind {
    fn dup(&self) -> (r: Self) {
        *self
    }
}

/// A `spawn:` or `task:` clause.
#[derive(Debug)]
pub struct TaskModel {
    /// Which clause it is.
    pub kind: TaskKind,
    /// The expression, as tokens.
    pub path: String,
}

/// What a [`TaskModel`] means.
pub struct TaskModelV {
    pub kind: TaskKind,
    pub path: Seq<char>,
}

impl DeepView for TaskModel {
    type V = TaskModelV;

    open spec fn deep_view(&self) -> TaskModelV {
        TaskModelV {
            kind: self.kind.deep_view(),
            path: self.path.deep_view(),
        }
    }
}

impl Dup for TaskModel {
    fn dup(&self) -> (r: Self) {
        TaskModel {
            kind: self.kind.dup(),
            path: self.path.dup(),
        }
    }
}

/// A `state:` clause.
#[derive(Debug)]
pub struct StateModel {
    /// The type.
    pub ty: TypeValue,
    /// The initial value: tokens, or `zeroed`.
    pub init: String,
}

/// What a [`StateModel`] means.
pub struct StateModelV {
    pub ty: TypeValueV,
    pub init: Seq<char>,
}

impl DeepView for StateModel {
    type V = StateModelV;

    open spec fn deep_view(&self) -> StateModelV {
        StateModelV {
            ty: self.ty.deep_view(),
            init: self.init.deep_view(),
        }
    }
}

impl Dup for StateModel {
    fn dup(&self) -> (r: Self) {
        StateModel {
            ty: self.ty.dup(),
            init: self.init.dup(),
        }
    }
}

/// A node.
#[derive(Debug)]
pub struct NodeModel {
    /// The name.
    pub name: String,
    /// The lifecycle mode.
    pub mode: String,
    /// The `cfg` predicates in front of it.
    pub cfg: Vec<String>,
    /// The `deps:` list.
    pub deps: Vec<DepModel>,
    /// The task; none for a parked node.
    pub task: Option<TaskModel>,
    /// The `pool_size:`.
    pub pool_size: Option<LitValue>,
    /// The `resources:` list.
    pub resources: Vec<ResourceModel>,
    /// The `provides:` list.
    pub provides: Vec<ProvideModel>,
    /// The predicates of the `disabled` marker.
    pub disabled: Option<Vec<String>>,
    /// The executor.
    pub executor: Option<String>,
    /// The executor is the graph default.
    pub executor_defaulted: bool,
    /// The `slot_timeout:`.
    pub slot_timeout_ms: Option<LitValue>,
    /// The `ack_timeout:`.
    pub ack_timeout_ms: Option<LitValue>,
    /// The `beat_timeout:`.
    pub beat_timeout_ms: Option<LitValue>,
    /// The `beat_window:`.
    pub beat_window: Option<LitValue>,
    /// The predicates of the `ready_on_write` marker.
    pub ready_on_write: Option<Vec<String>>,
    /// The `reads:` list.
    pub reads: Vec<SignalModel>,
    /// The `writes:` list.
    pub writes: Vec<SignalModel>,
    /// The `exit:` type.
    pub exit: Option<TypeValue>,
    /// The `state:` clause.
    pub state: Option<StateModel>,
    /// Marked `cancel`.
    pub cancel: bool,
    /// The predicates of the `discover` marker.
    pub discover: Option<Vec<String>>,
    /// The functions adopted, as paths.
    pub dataflow: Vec<String>,
}

/// What a [`NodeModel`] means.
pub struct NodeModelV {
    pub name: Seq<char>,
    pub mode: Seq<char>,
    pub cfg: Seq<Seq<char>>,
    pub deps: Seq<DepModelV>,
    pub task: Option<TaskModelV>,
    pub pool_size: Option<LitValueV>,
    pub resources: Seq<ResourceModelV>,
    pub provides: Seq<ProvideModelV>,
    pub disabled: Option<Seq<Seq<char>>>,
    pub executor: Option<Seq<char>>,
    pub executor_defaulted: bool,
    pub slot_timeout_ms: Option<LitValueV>,
    pub ack_timeout_ms: Option<LitValueV>,
    pub beat_timeout_ms: Option<LitValueV>,
    pub beat_window: Option<LitValueV>,
    pub ready_on_write: Option<Seq<Seq<char>>>,
    pub reads: Seq<SignalModelV>,
    pub writes: Seq<SignalModelV>,
    pub exit: Option<TypeValueV>,
    pub state: Option<StateModelV>,
    pub cancel: bool,
    pub discover: Option<Seq<Seq<char>>>,
    pub dataflow: Seq<Seq<char>>,
}

impl DeepView for NodeModel {
    type V = NodeModelV;

    open spec fn deep_view(&self) -> NodeModelV {
        NodeModelV {
            name: self.name.deep_view(),
            mode: self.mode.deep_view(),
            cfg: self.cfg.deep_view(),
            deps: self.deps.deep_view(),
            task: self.task.deep_view(),
            pool_size: self.pool_size.deep_view(),
            resources: self.resources.deep_view(),
            provides: self.provides.deep_view(),
            disabled: self.disabled.deep_view(),
            executor: self.executor.deep_view(),
            executor_defaulted: self.executor_defaulted.deep_view(),
            slot_timeout_ms: self.slot_timeout_ms.deep_view(),
            ack_timeout_ms: self.ack_timeout_ms.deep_view(),
            beat_timeout_ms: self.beat_timeout_ms.deep_view(),
            beat_window: self.beat_window.deep_view(),
            ready_on_write: self.ready_on_write.deep_view(),
            reads: self.reads.deep_view(),
            writes: self.writes.deep_view(),
            exit: self.exit.deep_view(),
            state: self.state.deep_view(),
            cancel: self.cancel.deep_view(),
            discover: self.discover.deep_view(),
            dataflow: self.dataflow.deep_view(),
        }
    }
}

impl Dup for NodeModel {
    fn dup(&self) -> (r: Self) {
        NodeModel {
            name: self.name.dup(),
            mode: self.mode.dup(),
            cfg: self.cfg.dup(),
            deps: self.deps.dup(),
            task: self.task.dup(),
            pool_size: self.pool_size.dup(),
            resources: self.resources.dup(),
            provides: self.provides.dup(),
            disabled: self.disabled.dup(),
            executor: self.executor.dup(),
            executor_defaulted: self.executor_defaulted.dup(),
            slot_timeout_ms: self.slot_timeout_ms.dup(),
            ack_timeout_ms: self.ack_timeout_ms.dup(),
            beat_timeout_ms: self.beat_timeout_ms.dup(),
            beat_window: self.beat_window.dup(),
            ready_on_write: self.ready_on_write.dup(),
            reads: self.reads.dup(),
            writes: self.writes.dup(),
            exit: self.exit.dup(),
            state: self.state.dup(),
            cancel: self.cancel.dup(),
            discover: self.discover.dup(),
            dataflow: self.dataflow.dup(),
        }
    }
}

/// A pool.
#[derive(Debug)]
pub struct PoolModel {
    /// The name.
    pub name: String,
    /// The member lifecycle modes.
    pub modes: Vec<String>,
    /// The `cfg` predicates in front of it.
    pub cfg: Vec<String>,
    /// The `deps:` list.
    pub deps: Vec<DepModel>,
    /// The task.
    pub task: TaskModel,
    /// The `policy:`.
    pub policy: ExprValue,
    /// The explicit policy type.
    pub policy_ty: Option<TypeValue>,
    /// The executor.
    pub executor: Option<String>,
    /// The executor is the graph default.
    pub executor_defaulted: bool,
    /// The `resources:` list.
    pub resources: Vec<ResourceModel>,
    /// The `slot_timeout:`.
    pub slot_timeout_ms: Option<LitValue>,
    /// The `ack_timeout:`.
    pub ack_timeout_ms: Option<LitValue>,
    /// The `reads:` list.
    pub reads: Vec<SignalModel>,
    /// The `writes:` list.
    pub writes: Vec<SignalModel>,
    /// The `min:`.
    pub min: ExprValue,
    /// The `max:`.
    pub max: ExprValue,
    /// The `state:` clause.
    pub state: Option<StateModel>,
    /// Marked `cancel`.
    pub cancel: bool,
    /// The predicates of the `discover` marker.
    pub discover: Option<Vec<String>>,
    /// The functions adopted, as paths.
    pub dataflow: Vec<String>,
}

/// What a [`PoolModel`] means.
pub struct PoolModelV {
    pub name: Seq<char>,
    pub modes: Seq<Seq<char>>,
    pub cfg: Seq<Seq<char>>,
    pub deps: Seq<DepModelV>,
    pub task: TaskModelV,
    pub policy: ExprValueV,
    pub policy_ty: Option<TypeValueV>,
    pub executor: Option<Seq<char>>,
    pub executor_defaulted: bool,
    pub resources: Seq<ResourceModelV>,
    pub slot_timeout_ms: Option<LitValueV>,
    pub ack_timeout_ms: Option<LitValueV>,
    pub reads: Seq<SignalModelV>,
    pub writes: Seq<SignalModelV>,
    pub min: ExprValueV,
    pub max: ExprValueV,
    pub state: Option<StateModelV>,
    pub cancel: bool,
    pub discover: Option<Seq<Seq<char>>>,
    pub dataflow: Seq<Seq<char>>,
}

impl DeepView for PoolModel {
    type V = PoolModelV;

    open spec fn deep_view(&self) -> PoolModelV {
        PoolModelV {
            name: self.name.deep_view(),
            modes: self.modes.deep_view(),
            cfg: self.cfg.deep_view(),
            deps: self.deps.deep_view(),
            task: self.task.deep_view(),
            policy: self.policy.deep_view(),
            policy_ty: self.policy_ty.deep_view(),
            executor: self.executor.deep_view(),
            executor_defaulted: self.executor_defaulted.deep_view(),
            resources: self.resources.deep_view(),
            slot_timeout_ms: self.slot_timeout_ms.deep_view(),
            ack_timeout_ms: self.ack_timeout_ms.deep_view(),
            reads: self.reads.deep_view(),
            writes: self.writes.deep_view(),
            min: self.min.deep_view(),
            max: self.max.deep_view(),
            state: self.state.deep_view(),
            cancel: self.cancel.deep_view(),
            discover: self.discover.deep_view(),
            dataflow: self.dataflow.deep_view(),
        }
    }
}

impl Dup for PoolModel {
    fn dup(&self) -> (r: Self) {
        PoolModel {
            name: self.name.dup(),
            modes: self.modes.dup(),
            cfg: self.cfg.dup(),
            deps: self.deps.dup(),
            task: self.task.dup(),
            policy: self.policy.dup(),
            policy_ty: self.policy_ty.dup(),
            executor: self.executor.dup(),
            executor_defaulted: self.executor_defaulted.dup(),
            resources: self.resources.dup(),
            slot_timeout_ms: self.slot_timeout_ms.dup(),
            ack_timeout_ms: self.ack_timeout_ms.dup(),
            reads: self.reads.dup(),
            writes: self.writes.dup(),
            min: self.min.dup(),
            max: self.max.dup(),
            state: self.state.dup(),
            cancel: self.cancel.dup(),
            discover: self.discover.dup(),
            dataflow: self.dataflow.dup(),
        }
    }
}

/// An executor.
#[derive(Debug)]
pub struct ExecutorModel {
    /// The name.
    pub name: String,
    /// It is the graph default.
    pub default: bool,
    /// The `cfg` predicates in front of it.
    pub cfg: Vec<String>,
}

/// What a [`ExecutorModel`] means.
pub struct ExecutorModelV {
    pub name: Seq<char>,
    pub default: bool,
    pub cfg: Seq<Seq<char>>,
}

impl DeepView for ExecutorModel {
    type V = ExecutorModelV;

    open spec fn deep_view(&self) -> ExecutorModelV {
        ExecutorModelV {
            name: self.name.deep_view(),
            default: self.default.deep_view(),
            cfg: self.cfg.deep_view(),
        }
    }
}

impl Dup for ExecutorModel {
    fn dup(&self) -> (r: Self) {
        ExecutorModel {
            name: self.name.dup(),
            default: self.default.dup(),
            cfg: self.cfg.dup(),
        }
    }
}

/// An item.
#[derive(Debug)]
pub enum ItemModel {
    /// A node.
    Node(NodeModel),
    /// A pool.
    Pool(PoolModel),
    /// An executor.
    Executor(ExecutorModel),
}

/// What a [`ItemModel`] means.
pub enum ItemModelV {
    Node(NodeModelV),
    Pool(PoolModelV),
    Executor(ExecutorModelV),
}

impl DeepView for ItemModel {
    type V = ItemModelV;

    open spec fn deep_view(&self) -> ItemModelV {
        match self {
            ItemModel::Node(x) => ItemModelV::Node(x.deep_view()),
            ItemModel::Pool(x) => ItemModelV::Pool(x.deep_view()),
            ItemModel::Executor(x) => ItemModelV::Executor(x.deep_view()),
        }
    }
}

impl Dup for ItemModel {
    fn dup(&self) -> (r: Self) {
        match self {
            ItemModel::Node(x) => ItemModel::Node(x.dup()),
            ItemModel::Pool(x) => ItemModel::Pool(x.dup()),
            ItemModel::Executor(x) => ItemModel::Executor(x.dup()),
        }
    }
}

/// One declaration.
#[derive(Debug)]
pub struct GraphModel {
    /// The macro.
    pub macro_name: String,
    /// The `name:`.
    pub name: Option<String>,
    /// The source file.
    pub origin: String,
    /// The line.
    pub line: usize,
    /// The items, in order.
    pub items: Vec<ItemModel>,
}

/// What a [`GraphModel`] means.
pub struct GraphModelV {
    pub macro_name: Seq<char>,
    pub name: Option<Seq<char>>,
    pub origin: Seq<char>,
    pub line: usize,
    pub items: Seq<ItemModelV>,
}

impl DeepView for GraphModel {
    type V = GraphModelV;

    open spec fn deep_view(&self) -> GraphModelV {
        GraphModelV {
            macro_name: self.macro_name.deep_view(),
            name: self.name.deep_view(),
            origin: self.origin.deep_view(),
            line: self.line.deep_view(),
            items: self.items.deep_view(),
        }
    }
}

impl Dup for GraphModel {
    fn dup(&self) -> (r: Self) {
        GraphModel {
            macro_name: self.macro_name.dup(),
            name: self.name.dup(),
            origin: self.origin.dup(),
            line: self.line.dup(),
            items: self.items.dup(),
        }
    }
}

/// Every declaration.
#[derive(Debug)]
pub struct FullModel {
    /// The declarations, in order.
    pub graphs: Vec<GraphModel>,
}

/// What a [`FullModel`] means.
pub struct FullModelV {
    pub graphs: Seq<GraphModelV>,
}

impl DeepView for FullModel {
    type V = FullModelV;

    open spec fn deep_view(&self) -> FullModelV {
        FullModelV {
            graphs: self.graphs.deep_view(),
        }
    }
}

impl Dup for FullModel {
    fn dup(&self) -> (r: Self) {
        FullModel {
            graphs: self.graphs.dup(),
        }
    }
}

/// A dep as plain data.
pub open spec fn dep_model(d: DepV) -> DepModelV {
    DepModelV { name: d.ident, ready: d.ready, bound: d.bound, cfg: cfg_texts(d.cfg) }
}

fn make_dep_model(d: &Dep) -> (r: DepModel)
    ensures
        r.deep_view() == dep_model(d.deep_view()),
{
    DepModel { name: d.ident.clone(), ready: d.ready, bound: d.bound, cfg: read_cfg_texts(&d.cfg) }
}

/// The deps as plain data.
pub open spec fn dep_models(v: Seq<DepV>) -> Seq<DepModelV> {
    Seq::new(v.len(), |i: int| dep_model(v[i]))
}

fn map_dep_model(v: &Vec<Dep>) -> (r: Vec<DepModel>)
    ensures
        r.deep_view() == dep_models(v.deep_view()),
{
    let ghost all = dep_models(v.deep_view());
    let mut out: Vec<DepModel> = Vec::new();
    let mut i: usize = 0;
    while i < v.len()
        invariant
            i <= v@.len(),
            all == dep_models(v.deep_view()),
            out.deep_view() == all.take(i as int),
        decreases v@.len() - i,
    {
        put(&mut out, make_dep_model(&v[i]));
        i = i + 1;
        assert(out.deep_view() == all.take(i as int));
    }
    assert(all.take(all.len() as int) == all);
    out
}

/// The tokens of an optional expression.
pub open spec fn expr_text(e: Option<ExprTextV>) -> Option<Seq<char>> {
    match e {
        Some(x) => Some(x.text),
        None => None,
    }
}

/// A signal entry as plain data.
pub open spec fn signal_model(s: SignalDeclV) -> SignalModelV {
    SignalModelV {
        path: signal_name(s),
        observed: s.observed,
        beat: s.beat,
        veto: s.veto,
        via: expr_text(s.via),
        cfg: cfg_texts(s.cfg),
    }
}

fn make_signal_model(s: &SignalDecl) -> (r: SignalModel)
    ensures
        r.deep_view() == signal_model(s.deep_view()),
{
    SignalModel {
        path: s.display(),
        observed: s.observed,
        beat: s.beat,
        veto: s.veto,
        via: match &s.via {
            Some(x) => Some(x.text.clone()),
            None => None,
        },
        cfg: read_cfg_texts(&s.cfg),
    }
}

/// The signal entries as plain data.
pub open spec fn signal_models(v: Seq<SignalDeclV>) -> Seq<SignalModelV> {
    Seq::new(v.len(), |i: int| signal_model(v[i]))
}

fn map_signal_model(v: &Vec<SignalDecl>) -> (r: Vec<SignalModel>)
    ensures
        r.deep_view() == signal_models(v.deep_view()),
{
    let ghost all = signal_models(v.deep_view());
    let mut out: Vec<SignalModel> = Vec::new();
    let mut i: usize = 0;
    while i < v.len()
        invariant
            i <= v@.len(),
            all == signal_models(v.deep_view()),
            out.deep_view() == all.take(i as int),
        decreases v@.len() - i,
    {
        put(&mut out, make_signal_model(&v[i]));
        i = i + 1;
        assert(out.deep_view() == all.take(i as int));
    }
    assert(all.take(all.len() as int) == all);
    out
}

/// A resource as plain data.
pub open spec fn resource_model(r: ResourceDeclV) -> ResourceModelV {
    ResourceModelV {
        name: r.ident,
        local: r.local,
        consume: r.consume,
        shared: r.shared,
        divisible: r.divisible,
        serialized: r.serialized,
        cfg: cfg_texts(r.cfg),
    }
}

fn make_resource_model(d: &ResourceDecl) -> (r: ResourceModel)
    ensures
        r.deep_view() == resource_model(d.deep_view()),
{
    ResourceModel {
        name: d.ident.clone(),
        local: d.local,
        consume: d.consume,
        shared: d.shared,
        divisible: d.divisible,
        serialized: d.serialized,
        cfg: read_cfg_texts(&d.cfg),
    }
}

/// The resources as plain data.
pub open spec fn resource_models(v: Seq<ResourceDeclV>) -> Seq<ResourceModelV> {
    Seq::new(v.len(), |i: int| resource_model(v[i]))
}

fn map_resource_model(v: &Vec<ResourceDecl>) -> (r: Vec<ResourceModel>)
    ensures
        r.deep_view() == resource_models(v.deep_view()),
{
    let ghost all = resource_models(v.deep_view());
    let mut out: Vec<ResourceModel> = Vec::new();
    let mut i: usize = 0;
    while i < v.len()
        invariant
            i <= v@.len(),
            all == resource_models(v.deep_view()),
            out.deep_view() == all.take(i as int),
        decreases v@.len() - i,
    {
        put(&mut out, make_resource_model(&v[i]));
        i = i + 1;
        assert(out.deep_view() == all.take(i as int));
    }
    assert(all.take(all.len() as int) == all);
    out
}

/// A provided slot as plain data.
pub open spec fn provide_model(p: ProvideDeclV) -> ProvideModelV {
    ProvideModelV { name: p.ident, cfg: cfg_texts(p.cfg) }
}

fn make_provide_model(p: &ProvideDecl) -> (r: ProvideModel)
    ensures
        r.deep_view() == provide_model(p.deep_view()),
{
    ProvideModel { name: p.ident.clone(), cfg: read_cfg_texts(&p.cfg) }
}

/// The provided slots as plain data.
pub open spec fn provide_models(v: Seq<ProvideDeclV>) -> Seq<ProvideModelV> {
    Seq::new(v.len(), |i: int| provide_model(v[i]))
}

fn map_provide_model(v: &Vec<ProvideDecl>) -> (r: Vec<ProvideModel>)
    ensures
        r.deep_view() == provide_models(v.deep_view()),
{
    let ghost all = provide_models(v.deep_view());
    let mut out: Vec<ProvideModel> = Vec::new();
    let mut i: usize = 0;
    while i < v.len()
        invariant
            i <= v@.len(),
            all == provide_models(v.deep_view()),
            out.deep_view() == all.take(i as int),
        decreases v@.len() - i,
    {
        put(&mut out, make_provide_model(&v[i]));
        i = i + 1;
        assert(out.deep_view() == all.take(i as int));
    }
    assert(all.take(all.len() as int) == all);
    out
}

/// The path of an adopted function.
pub open spec fn adopted_path(f: AdoptedFnV) -> Seq<char> {
    joined(f.path.segments, "::"@)
}

/// The paths of adopted functions.
pub open spec fn adopted_paths(v: Seq<AdoptedFnV>) -> Seq<Seq<char>> {
    Seq::new(v.len(), |i: int| adopted_path(v[i]))
}

fn map_adopted(v: &Vec<AdoptedFn>) -> (r: Vec<String>)
    ensures
        r.deep_view() == adopted_paths(v.deep_view()),
{
    let ghost all = adopted_paths(v.deep_view());
    let mut out: Vec<String> = Vec::new();
    let mut i: usize = 0;
    while i < v.len()
        invariant
            i <= v@.len(),
            all == adopted_paths(v.deep_view()),
            out.deep_view() == all.take(i as int),
        decreases v@.len() - i,
    {
        let p = join(&v[i].path.segments, "::");
        put(&mut out, p);
        i = i + 1;
        assert(out.deep_view() == all.take(i as int));
    }
    assert(all.take(all.len() as int) == all);
    out
}

/// A task source as plain data.
pub open spec fn task_model(t: TaskSourceV) -> TaskModelV {
    match t {
        TaskSourceV::Spawn(e) => TaskModelV { kind: TaskKind::Spawn, path: e.text },
        TaskSourceV::Shell(e) => TaskModelV { kind: TaskKind::Shell, path: e.text },
    }
}

fn make_task_model(t: &TaskSource) -> (r: TaskModel)
    ensures
        r.deep_view() == task_model(t.deep_view()),
{
    match t {
        TaskSource::Spawn(e) => TaskModel { kind: TaskKind::Spawn, path: e.text.clone() },
        TaskSource::Shell(e) => TaskModel { kind: TaskKind::Shell, path: e.text.clone() },
    }
}

/// A `state:` clause as plain data.
pub open spec fn state_model(s: Option<StateDeclV>) -> Option<StateModelV> {
    match s {
        Some(d) => Some(
            StateModelV {
                ty: TypeValueV { text: d.ty },
                init: match d.init {
                    StateInitV::Expr(e) => e.text,
                    StateInitV::Zeroed => "zeroed"@,
                },
            },
        ),
        None => None,
    }
}

fn make_state_model(s: &Option<StateDecl>) -> (r: Option<StateModel>)
    ensures
        r.deep_view() == state_model(s.deep_view()),
{
    match s {
        Some(d) => Some(
            StateModel {
                ty: TypeValue { text: d.ty.clone() },
                init: match &d.init {
                    StateInit::Expr(e) => e.text.clone(),
                    StateInit::Zeroed => text("zeroed"),
                },
            },
        ),
        None => None,
    }
}

/// A gated integer clause as plain data.
pub open spec fn lit_model(g: Option<GatedV<IntLitV>>) -> Option<LitValueV> {
    match g {
        Some(x) => Some(LitValueV { cfg: cfg_texts(x.cfg), lit: x.value, text: x.value.text }),
        None => None,
    }
}

fn make_lit_model(g: &Option<Gated<IntLit>>) -> (r: Option<LitValue>)
    ensures
        r.deep_view() == lit_model(g.deep_view()),
{
    match g {
        Some(x) => Some(
            LitValue {
                cfg: read_cfg_texts(&x.cfg),
                lit: x.value.dup(),
                text: x.value.text.clone(),
            },
        ),
        None => None,
    }
}

/// A `pool_size:` clause, which nothing gates.
pub open spec fn size_model(l: Option<IntLitV>) -> Option<LitValueV> {
    match l {
        Some(x) => Some(LitValueV { cfg: Seq::empty(), lit: x, text: x.text }),
        None => None,
    }
}

fn make_size_model(l: &Option<IntLit>) -> (r: Option<LitValue>)
    ensures
        r.deep_view() == size_model(l.deep_view()),
{
    match l {
        Some(x) => {
            let none: Vec<String> = Vec::new();
            assert(none.deep_view() == Seq::<Seq<char>>::empty());
            Some(LitValue { cfg: none, lit: x.dup(), text: x.text.clone() })
        },
        None => None,
    }
}

/// The predicates of a gated marker.
pub open spec fn mark_model(g: Option<GatedV<()>>) -> Option<Seq<Seq<char>>> {
    match g {
        Some(x) => Some(cfg_texts(x.cfg)),
        None => None,
    }
}

fn make_mark_model(g: &Option<Gated<()>>) -> (r: Option<Vec<String>>)
    ensures
        r.deep_view() == mark_model(g.deep_view()),
{
    match g {
        Some(x) => Some(read_cfg_texts(&x.cfg)),
        None => None,
    }
}

/// An optional type clause as plain data.
pub open spec fn type_model(t: Option<Seq<char>>) -> Option<TypeValueV> {
    match t {
        Some(text) => Some(TypeValueV { text }),
        None => None,
    }
}

fn make_type_model(t: &Option<String>) -> (r: Option<TypeValue>)
    ensures
        r.deep_view() == type_model(t.deep_view()),
{
    match t {
        Some(x) => Some(TypeValue { text: x.clone() }),
        None => None,
    }
}

/// An expression clause as plain data.
pub open spec fn expr_model(e: ExprTextV) -> ExprValueV {
    ExprValueV { expr: e, text: e.text }
}

fn make_expr_model(e: &ExprText) -> (r: ExprValue)
    ensures
        r.deep_view() == expr_model(e.deep_view()),
{
    ExprValue { expr: e.dup(), text: e.text.clone() }
}

/// The task source of a node as plain data.
pub open spec fn opt_task_model(t: Option<TaskSourceV>) -> Option<TaskModelV> {
    match t {
        Some(x) => Some(task_model(x)),
        None => None,
    }
}

/// A node as plain data.
pub open spec fn node_model(n: NodeItemV) -> NodeModelV {
    NodeModelV {
        name: n.ident,
        mode: n.mode,
        cfg: cfg_texts(n.cfg),
        deps: dep_models(n.deps),
        task: opt_task_model(n.source),
        pool_size: size_model(n.pool_size),
        resources: resource_models(n.resources),
        provides: provide_models(n.provides),
        disabled: mark_model(n.disabled),
        executor: n.executor,
        executor_defaulted: n.executor_defaulted,
        slot_timeout_ms: lit_model(n.slot_timeout),
        ack_timeout_ms: lit_model(n.ack_timeout),
        beat_timeout_ms: lit_model(n.beat_timeout),
        beat_window: lit_model(n.beat_window),
        ready_on_write: mark_model(n.ready_on_write),
        reads: signal_models(n.reads),
        writes: signal_models(n.writes),
        exit: type_model(n.exit),
        state: state_model(n.state),
        cancel: n.cancel,
        discover: mark_model(n.discover),
        dataflow: adopted_paths(n.dataflow),
    }
}

fn make_node_model(n: &NodeItem) -> (r: NodeModel)
    ensures
        r.deep_view() == node_model(n.deep_view()),
{
    NodeModel {
        name: n.ident.clone(),
        mode: n.mode.clone(),
        cfg: read_cfg_texts(&n.cfg),
        deps: map_dep_model(&n.deps),
        task: match &n.source {
            Some(t) => Some(make_task_model(t)),
            None => None,
        },
        pool_size: make_size_model(&n.pool_size),
        resources: map_resource_model(&n.resources),
        provides: map_provide_model(&n.provides),
        disabled: make_mark_model(&n.disabled),
        executor: n.executor.dup(),
        executor_defaulted: n.executor_defaulted,
        slot_timeout_ms: make_lit_model(&n.slot_timeout),
        ack_timeout_ms: make_lit_model(&n.ack_timeout),
        beat_timeout_ms: make_lit_model(&n.beat_timeout),
        beat_window: make_lit_model(&n.beat_window),
        ready_on_write: make_mark_model(&n.ready_on_write),
        reads: map_signal_model(&n.reads),
        writes: map_signal_model(&n.writes),
        exit: make_type_model(&n.exit),
        state: make_state_model(&n.state),
        cancel: n.cancel,
        discover: make_mark_model(&n.discover),
        dataflow: map_adopted(&n.dataflow),
    }
}

/// A pool as plain data.
pub open spec fn pool_model(p: PoolItemV) -> PoolModelV {
    PoolModelV {
        name: p.ident,
        modes: p.modes,
        cfg: cfg_texts(p.cfg),
        deps: dep_models(p.deps),
        task: task_model(p.source),
        policy: expr_model(p.policy),
        policy_ty: type_model(p.policy_ty),
        executor: p.executor,
        executor_defaulted: p.executor_defaulted,
        resources: resource_models(p.resources),
        slot_timeout_ms: lit_model(p.slot_timeout),
        ack_timeout_ms: lit_model(p.ack_timeout),
        reads: signal_models(p.reads),
        writes: signal_models(p.writes),
        min: expr_model(p.min),
        max: expr_model(p.max),
        state: state_model(p.state),
        cancel: p.cancel,
        discover: mark_model(p.discover),
        dataflow: adopted_paths(p.dataflow),
    }
}

fn make_pool_model(p: &PoolItem) -> (r: PoolModel)
    ensures
        r.deep_view() == pool_model(p.deep_view()),
{
    PoolModel {
        name: p.ident.clone(),
        modes: p.modes.dup(),
        cfg: read_cfg_texts(&p.cfg),
        deps: map_dep_model(&p.deps),
        task: make_task_model(&p.source),
        policy: make_expr_model(&p.policy),
        policy_ty: make_type_model(&p.policy_ty),
        executor: p.executor.dup(),
        executor_defaulted: p.executor_defaulted,
        resources: map_resource_model(&p.resources),
        slot_timeout_ms: make_lit_model(&p.slot_timeout),
        ack_timeout_ms: make_lit_model(&p.ack_timeout),
        reads: map_signal_model(&p.reads),
        writes: map_signal_model(&p.writes),
        min: make_expr_model(&p.min),
        max: make_expr_model(&p.max),
        state: make_state_model(&p.state),
        cancel: p.cancel,
        discover: make_mark_model(&p.discover),
        dataflow: map_adopted(&p.dataflow),
    }
}

/// An item as plain data.
pub open spec fn item_model(item: ItemV) -> ItemModelV {
    match item {
        ItemV::Node(n) => ItemModelV::Node(node_model(n)),
        ItemV::Pool(p) => ItemModelV::Pool(pool_model(p)),
        ItemV::Executor(x) => ItemModelV::Executor(
            ExecutorModelV { name: x.ident, default: x.default, cfg: cfg_texts(x.cfg) },
        ),
    }
}

fn make_item_model(item: &Item) -> (r: ItemModel)
    ensures
        r.deep_view() == item_model(item.deep_view()),
{
    match item {
        Item::Node(n) => ItemModel::Node(make_node_model(n)),
        Item::Pool(p) => ItemModel::Pool(make_pool_model(p)),
        Item::Executor(x) => ItemModel::Executor(
            ExecutorModel { name: x.ident.clone(), default: x.default, cfg: read_cfg_texts(&x.cfg) },
        ),
    }
}

/// The items as plain data.
pub open spec fn item_models(v: Seq<ItemV>) -> Seq<ItemModelV> {
    Seq::new(v.len(), |i: int| item_model(v[i]))
}

fn map_item_model(v: &Vec<Item>) -> (r: Vec<ItemModel>)
    ensures
        r.deep_view() == item_models(v.deep_view()),
{
    let ghost all = item_models(v.deep_view());
    let mut out: Vec<ItemModel> = Vec::new();
    let mut i: usize = 0;
    while i < v.len()
        invariant
            i <= v@.len(),
            all == item_models(v.deep_view()),
            out.deep_view() == all.take(i as int),
        decreases v@.len() - i,
    {
        put(&mut out, make_item_model(&v[i]));
        i = i + 1;
        assert(out.deep_view() == all.take(i as int));
    }
    assert(all.take(all.len() as int) == all);
    out
}

/// A declaration as plain data.
pub open spec fn graph_model(d: DeclV) -> GraphModelV {
    GraphModelV {
        macro_name: macro_name(d.kind),
        name: d.spec.name,
        origin: d.origin,
        line: d.line,
        items: item_models(d.spec.items),
    }
}

fn make_graph_model(d: &Decl) -> (r: GraphModel)
    ensures
        r.deep_view() == graph_model(d.deep_view()),
{
    GraphModel {
        macro_name: text(d.kind.macro_name()),
        name: d.spec.name.dup(),
        origin: d.origin.clone(),
        line: d.line,
        items: map_item_model(&d.spec.items),
    }
}

/// The declarations as plain data.
pub open spec fn graph_models(v: Seq<DeclV>) -> Seq<GraphModelV> {
    Seq::new(v.len(), |i: int| graph_model(v[i]))
}

fn map_graph_model(v: &Vec<Decl>) -> (r: Vec<GraphModel>)
    ensures
        r.deep_view() == graph_models(v.deep_view()),
{
    let ghost all = graph_models(v.deep_view());
    let mut out: Vec<GraphModel> = Vec::new();
    let mut i: usize = 0;
    while i < v.len()
        invariant
            i <= v@.len(),
            all == graph_models(v.deep_view()),
            out.deep_view() == all.take(i as int),
        decreases v@.len() - i,
    {
        put(&mut out, make_graph_model(&v[i]));
        i = i + 1;
        assert(out.deep_view() == all.take(i as int));
    }
    assert(all.take(all.len() as int) == all);
    out
}

/// Every declaration as plain data.
pub fn full_model(decls: &Vec<Decl>) -> (r: FullModel)
    ensures
        r.deep_view() == (FullModelV { graphs: graph_models(decls.deep_view()) }),
{
    FullModel { graphs: map_graph_model(decls) }
}

/// A dep as JSON.
pub open spec fn dep_json(d: DepModelV) -> JsonV {
    JsonV::Obj(
        no_fields()
            .push(("name"@, JsonV::Str(d.name)))
            .push(("ready"@, JsonV::Bool(d.ready)))
            .push(("bound"@, JsonV::Bool(d.bound)))
            .push(("cfg"@, strings(d.cfg))),
    )
}

fn make_dep_json(d: &DepModel) -> (r: Json)
    ensures
        r.deep_view() == dep_json(d.deep_view()),
{
    let mut o = new_fields();
    field(&mut o, "name", string(d.name.as_str()));
    field(&mut o, "ready", Json::Bool(d.ready));
    field(&mut o, "bound", Json::Bool(d.bound));
    field(&mut o, "cfg", string_arr(&d.cfg));
    obj(o)
}

/// The entries as a JSON array.
pub open spec fn dep_jsons(v: Seq<DepModelV>) -> JsonV {
    JsonV::Arr(Seq::new(v.len(), |i: int| dep_json(v[i])))
}

fn map_dep_json(v: &Vec<DepModel>) -> (r: Json)
    ensures
        r.deep_view() == dep_jsons(v.deep_view()),
{
    let ghost all = dep_jsons(v.deep_view())->Arr_0;
    let mut out: Vec<Json> = Vec::new();
    let mut i: usize = 0;
    while i < v.len()
        invariant
            i <= v@.len(),
            all == dep_jsons(v.deep_view())->Arr_0,
            out.deep_view() == all.take(i as int),
        decreases v@.len() - i,
    {
        put(&mut out, make_dep_json(&v[i]));
        i = i + 1;
        assert(out.deep_view() == all.take(i as int));
    }
    assert(all.take(all.len() as int) == all);
    arr(out)
}

/// A signal entry as JSON.
pub open spec fn signal_json(s: SignalModelV) -> JsonV {
    JsonV::Obj(
        no_fields()
            .push(("path"@, JsonV::Str(s.path)))
            .push(("observed"@, JsonV::Bool(s.observed)))
            .push(("beat"@, JsonV::Bool(s.beat)))
            .push(("veto"@, JsonV::Bool(s.veto)))
            .push(("via"@, opt_string(s.via)))
            .push(("cfg"@, strings(s.cfg))),
    )
}

fn make_signal_json(s: &SignalModel) -> (r: Json)
    ensures
        r.deep_view() == signal_json(s.deep_view()),
{
    let mut o = new_fields();
    field(&mut o, "path", string(s.path.as_str()));
    field(&mut o, "observed", Json::Bool(s.observed));
    field(&mut o, "beat", Json::Bool(s.beat));
    field(&mut o, "veto", Json::Bool(s.veto));
    field(&mut o, "via", string_or_null(&s.via));
    field(&mut o, "cfg", string_arr(&s.cfg));
    obj(o)
}

/// The entries as a JSON array.
pub open spec fn signal_jsons(v: Seq<SignalModelV>) -> JsonV {
    JsonV::Arr(Seq::new(v.len(), |i: int| signal_json(v[i])))
}

fn map_signal_json(v: &Vec<SignalModel>) -> (r: Json)
    ensures
        r.deep_view() == signal_jsons(v.deep_view()),
{
    let ghost all = signal_jsons(v.deep_view())->Arr_0;
    let mut out: Vec<Json> = Vec::new();
    let mut i: usize = 0;
    while i < v.len()
        invariant
            i <= v@.len(),
            all == signal_jsons(v.deep_view())->Arr_0,
            out.deep_view() == all.take(i as int),
        decreases v@.len() - i,
    {
        put(&mut out, make_signal_json(&v[i]));
        i = i + 1;
        assert(out.deep_view() == all.take(i as int));
    }
    assert(all.take(all.len() as int) == all);
    arr(out)
}

/// A resource as JSON.
pub open spec fn resource_json(d: ResourceModelV) -> JsonV {
    JsonV::Obj(
        no_fields()
            .push(("name"@, JsonV::Str(d.name)))
            .push(("local"@, JsonV::Bool(d.local)))
            .push(("consume"@, JsonV::Bool(d.consume)))
            .push(("shared"@, JsonV::Bool(d.shared)))
            .push(("divisible"@, JsonV::Bool(d.divisible)))
            .push(("serialized"@, JsonV::Bool(d.serialized)))
            .push(("cfg"@, strings(d.cfg))),
    )
}

fn make_resource_json(d: &ResourceModel) -> (r: Json)
    ensures
        r.deep_view() == resource_json(d.deep_view()),
{
    let mut o = new_fields();
    field(&mut o, "name", string(d.name.as_str()));
    field(&mut o, "local", Json::Bool(d.local));
    field(&mut o, "consume", Json::Bool(d.consume));
    field(&mut o, "shared", Json::Bool(d.shared));
    field(&mut o, "divisible", Json::Bool(d.divisible));
    field(&mut o, "serialized", Json::Bool(d.serialized));
    field(&mut o, "cfg", string_arr(&d.cfg));
    obj(o)
}

/// The entries as a JSON array.
pub open spec fn resource_jsons(v: Seq<ResourceModelV>) -> JsonV {
    JsonV::Arr(Seq::new(v.len(), |i: int| resource_json(v[i])))
}

fn map_resource_json(v: &Vec<ResourceModel>) -> (r: Json)
    ensures
        r.deep_view() == resource_jsons(v.deep_view()),
{
    let ghost all = resource_jsons(v.deep_view())->Arr_0;
    let mut out: Vec<Json> = Vec::new();
    let mut i: usize = 0;
    while i < v.len()
        invariant
            i <= v@.len(),
            all == resource_jsons(v.deep_view())->Arr_0,
            out.deep_view() == all.take(i as int),
        decreases v@.len() - i,
    {
        put(&mut out, make_resource_json(&v[i]));
        i = i + 1;
        assert(out.deep_view() == all.take(i as int));
    }
    assert(all.take(all.len() as int) == all);
    arr(out)
}

/// A provided slot as JSON.
pub open spec fn provide_json(p: ProvideModelV) -> JsonV {
    JsonV::Obj(
        no_fields()
            .push(("name"@, JsonV::Str(p.name)))
            .push(("cfg"@, strings(p.cfg))),
    )
}

fn make_provide_json(p: &ProvideModel) -> (r: Json)
    ensures
        r.deep_view() == provide_json(p.deep_view()),
{
    let mut o = new_fields();
    field(&mut o, "name", string(p.name.as_str()));
    field(&mut o, "cfg", string_arr(&p.cfg));
    obj(o)
}

/// The entries as a JSON array.
pub open spec fn provide_jsons(v: Seq<ProvideModelV>) -> JsonV {
    JsonV::Arr(Seq::new(v.len(), |i: int| provide_json(v[i])))
}

fn map_provide_json(v: &Vec<ProvideModel>) -> (r: Json)
    ensures
        r.deep_view() == provide_jsons(v.deep_view()),
{
    let ghost all = provide_jsons(v.deep_view())->Arr_0;
    let mut out: Vec<Json> = Vec::new();
    let mut i: usize = 0;
    while i < v.len()
        invariant
            i <= v@.len(),
            all == provide_jsons(v.deep_view())->Arr_0,
            out.deep_view() == all.take(i as int),
        decreases v@.len() - i,
    {
        put(&mut out, make_provide_json(&v[i]));
        i = i + 1;
        assert(out.deep_view() == all.take(i as int));
    }
    assert(all.take(all.len() as int) == all);
    arr(out)
}

/// The clause that introduces a task.
pub open spec fn kind_word(k: TaskKind) -> Seq<char> {
    match k {
        TaskKind::Spawn => "spawn"@,
        TaskKind::Shell => "task"@,
    }
}

fn kind_text(k: TaskKind) -> (r: &'static str)
    ensures
        r@ == kind_word(k),
{
    match k {
        TaskKind::Spawn => "spawn",
        TaskKind::Shell => "task",
    }
}

/// A task as JSON.
pub open spec fn task_json(t: TaskModelV) -> JsonV {
    JsonV::Obj(
        no_fields()
            .push(("kind"@, JsonV::Str(kind_word(t.kind))))
            .push(("path"@, JsonV::Str(t.path))),
    )
}

fn make_task_json(t: &TaskModel) -> (r: Json)
    ensures
        r.deep_view() == task_json(t.deep_view()),
{
    let mut o = new_fields();
    field(&mut o, "kind", string(kind_text(t.kind)));
    field(&mut o, "path", string(t.path.as_str()));
    obj(o)
}

/// An optional task as JSON.
pub open spec fn opt_task_json(t: Option<TaskModelV>) -> JsonV {
    match t {
        Some(x) => task_json(x),
        None => JsonV::Null,
    }
}

fn make_opt_task_json(t: &Option<TaskModel>) -> (r: Json)
    ensures
        r.deep_view() == opt_task_json(t.deep_view()),
{
    match t {
        Some(x) => make_task_json(x),
        None => Json::Null,
    }
}

/// A literal as JSON: its value, its text where it has none, null where it is not given.
pub open spec fn lit_json(l: Option<LitValueV>) -> JsonV {
    match l {
        Some(v) => match v.lit.value {
            Some(n) => JsonV::Num(n),
            None => JsonV::Str(v.text),
        },
        None => JsonV::Null,
    }
}

fn make_lit_json(l: &Option<LitValue>) -> (r: Json)
    ensures
        r.deep_view() == lit_json(l.deep_view()),
{
    match l {
        Some(v) => match v.as_u64() {
            Some(n) => Json::Num(n),
            None => string(v.text.as_str()),
        },
        None => Json::Null,
    }
}

/// The predicates of a literal as JSON.
pub open spec fn lit_cfg(l: Option<LitValueV>) -> JsonV {
    match l {
        Some(v) => strings(v.cfg),
        None => JsonV::Arr(Seq::empty()),
    }
}

fn empty_arr() -> (r: Json)
    ensures
        r.deep_view() == JsonV::Arr(Seq::empty()),
{
    let v: Vec<Json> = Vec::new();
    assert(v.deep_view() == Seq::<JsonV>::empty());
    arr(v)
}

fn make_lit_cfg(l: &Option<LitValue>) -> (r: Json)
    ensures
        r.deep_view() == lit_cfg(l.deep_view()),
{
    match l {
        Some(v) => string_arr(&v.cfg),
        None => empty_arr(),
    }
}

/// The predicates of a marker as JSON.
pub open spec fn mark_cfg(m: Option<Seq<Seq<char>>>) -> JsonV {
    match m {
        Some(v) => strings(v),
        None => JsonV::Arr(Seq::empty()),
    }
}

fn make_mark_cfg(m: &Option<Vec<String>>) -> (r: Json)
    ensures
        r.deep_view() == mark_cfg(m.deep_view()),
{
    match m {
        Some(v) => string_arr(v),
        None => empty_arr(),
    }
}

/// An optional type as JSON.
pub open spec fn type_json(t: Option<TypeValueV>) -> JsonV {
    match t {
        Some(x) => JsonV::Str(x.text),
        None => JsonV::Null,
    }
}

fn make_type_json(t: &Option<TypeValue>) -> (r: Json)
    ensures
        r.deep_view() == type_json(t.deep_view()),
{
    match t {
        Some(x) => string(x.text.as_str()),
        None => Json::Null,
    }
}

/// An optional `state:` clause as JSON.
pub open spec fn state_json(s: Option<StateModelV>) -> JsonV {
    match s {
        Some(v) => JsonV::Obj(
            no_fields().push(("ty"@, JsonV::Str(v.ty.text))).push(("init"@, JsonV::Str(v.init))),
        ),
        None => JsonV::Null,
    }
}

fn make_state_json(s: &Option<StateModel>) -> (r: Json)
    ensures
        r.deep_view() == state_json(s.deep_view()),
{
    match s {
        Some(v) => {
            let mut o = new_fields();
            field(&mut o, "ty", string(v.ty.text.as_str()));
            field(&mut o, "init", string(v.init.as_str()));
            obj(o)
        },
        None => Json::Null,
    }
}

/// A node as JSON.
pub open spec fn node_json(n: NodeModelV) -> JsonV {
    JsonV::Obj(
        no_fields()
            .push(("kind"@, JsonV::Str("node"@)))
            .push(("name"@, JsonV::Str(n.name)))
            .push(("mode"@, JsonV::Str(n.mode)))
            .push(("cfg"@, strings(n.cfg)))
            .push(("deps"@, dep_jsons(n.deps)))
            .push(("executor"@, opt_string(n.executor)))
            .push(("executor_defaulted"@, JsonV::Bool(n.executor_defaulted)))
            .push(("resources"@, resource_jsons(n.resources)))
            .push(("provides"@, provide_jsons(n.provides)))
            .push(("discover"@, JsonV::Bool(n.discover is Some)))
            .push(("discover_cfg"@, mark_cfg(n.discover)))
            .push(("dataflow"@, strings(n.dataflow)))
            .push(("reads"@, signal_jsons(n.reads)))
            .push(("writes"@, signal_jsons(n.writes)))
            .push(("disabled"@, JsonV::Bool(n.disabled is Some)))
            .push(("disabled_cfg"@, mark_cfg(n.disabled)))
            .push(("parked"@, JsonV::Bool(n.task is None)))
            .push(("task"@, opt_task_json(n.task)))
            .push(("pool_size"@, lit_json(n.pool_size)))
            .push(("slot_timeout_ms"@, lit_json(n.slot_timeout_ms)))
            .push(("slot_timeout_cfg"@, lit_cfg(n.slot_timeout_ms)))
            .push(("ack_timeout_ms"@, lit_json(n.ack_timeout_ms)))
            .push(("ack_timeout_cfg"@, lit_cfg(n.ack_timeout_ms)))
            .push(("beat_timeout_ms"@, lit_json(n.beat_timeout_ms)))
            .push(("beat_timeout_cfg"@, lit_cfg(n.beat_timeout_ms)))
            .push(("beat_window"@, lit_json(n.beat_window)))
            .push(("beat_window_cfg"@, lit_cfg(n.beat_window)))
            .push(("ready_on_write"@, JsonV::Bool(n.ready_on_write is Some)))
            .push(("ready_on_write_cfg"@, mark_cfg(n.ready_on_write)))
            .push(("exit"@, type_json(n.exit)))
            .push(("state"@, state_json(n.state)))
            .push(("cancel"@, JsonV::Bool(n.cancel))),
    )
}

fn make_node_json(n: &NodeModel) -> (r: Json)
    ensures
        r.deep_view() == node_json(n.deep_view()),
{
    let mut o = new_fields();
    field(&mut o, "kind", string("node"));
    field(&mut o, "name", string(n.name.as_str()));
    field(&mut o, "mode", string(n.mode.as_str()));
    field(&mut o, "cfg", string_arr(&n.cfg));
    field(&mut o, "deps", map_dep_json(&n.deps));
    field(&mut o, "executor", string_or_null(&n.executor));
    field(&mut o, "executor_defaulted", Json::Bool(n.executor_defaulted));
    field(&mut o, "resources", map_resource_json(&n.resources));
    field(&mut o, "provides", map_provide_json(&n.provides));
    field(&mut o, "discover", Json::Bool(n.discover.is_some()));
    field(&mut o, "discover_cfg", make_mark_cfg(&n.discover));
    field(&mut o, "dataflow", string_arr(&n.dataflow));
    field(&mut o, "reads", map_signal_json(&n.reads));
    field(&mut o, "writes", map_signal_json(&n.writes));
    field(&mut o, "disabled", Json::Bool(n.disabled.is_some()));
    field(&mut o, "disabled_cfg", make_mark_cfg(&n.disabled));
    field(&mut o, "parked", Json::Bool(n.task.is_none()));
    field(&mut o, "task", make_opt_task_json(&n.task));
    field(&mut o, "pool_size", make_lit_json(&n.pool_size));
    field(&mut o, "slot_timeout_ms", make_lit_json(&n.slot_timeout_ms));
    field(&mut o, "slot_timeout_cfg", make_lit_cfg(&n.slot_timeout_ms));
    field(&mut o, "ack_timeout_ms", make_lit_json(&n.ack_timeout_ms));
    field(&mut o, "ack_timeout_cfg", make_lit_cfg(&n.ack_timeout_ms));
    field(&mut o, "beat_timeout_ms", make_lit_json(&n.beat_timeout_ms));
    field(&mut o, "beat_timeout_cfg", make_lit_cfg(&n.beat_timeout_ms));
    field(&mut o, "beat_window", make_lit_json(&n.beat_window));
    field(&mut o, "beat_window_cfg", make_lit_cfg(&n.beat_window));
    field(&mut o, "ready_on_write", Json::Bool(n.ready_on_write.is_some()));
    field(&mut o, "ready_on_write_cfg", make_mark_cfg(&n.ready_on_write));
    field(&mut o, "exit", make_type_json(&n.exit));
    field(&mut o, "state", make_state_json(&n.state));
    field(&mut o, "cancel", Json::Bool(n.cancel));
    obj(o)
}

/// A pool as JSON.
pub open spec fn pool_json(p: PoolModelV) -> JsonV {
    JsonV::Obj(
        no_fields()
            .push(("kind"@, JsonV::Str("pool"@)))
            .push(("name"@, JsonV::Str(p.name)))
            .push(("modes"@, strings(p.modes)))
            .push(("cfg"@, strings(p.cfg)))
            .push(("deps"@, dep_jsons(p.deps)))
            .push(("executor"@, opt_string(p.executor)))
            .push(("executor_defaulted"@, JsonV::Bool(p.executor_defaulted)))
            .push(("resources"@, resource_jsons(p.resources)))
            .push(("discover"@, JsonV::Bool(p.discover is Some)))
            .push(("discover_cfg"@, mark_cfg(p.discover)))
            .push(("dataflow"@, strings(p.dataflow)))
            .push(("reads"@, signal_jsons(p.reads)))
            .push(("writes"@, signal_jsons(p.writes)))
            .push(("task"@, task_json(p.task)))
            .push(("policy"@, JsonV::Str(p.policy.text)))
            .push(("policy_ty"@, type_json(p.policy_ty)))
            .push(("min"@, JsonV::Str(p.min.text)))
            .push(("max"@, JsonV::Str(p.max.text)))
            .push(("slot_timeout_ms"@, lit_json(p.slot_timeout_ms)))
            .push(("slot_timeout_cfg"@, lit_cfg(p.slot_timeout_ms)))
            .push(("ack_timeout_ms"@, lit_json(p.ack_timeout_ms)))
            .push(("ack_timeout_cfg"@, lit_cfg(p.ack_timeout_ms)))
            .push(("state"@, state_json(p.state)))
            .push(("cancel"@, JsonV::Bool(p.cancel))),
    )
}

fn make_pool_json(p: &PoolModel) -> (r: Json)
    ensures
        r.deep_view() == pool_json(p.deep_view()),
{
    let mut o = new_fields();
    field(&mut o, "kind", string("pool"));
    field(&mut o, "name", string(p.name.as_str()));
    field(&mut o, "modes", string_arr(&p.modes));
    field(&mut o, "cfg", string_arr(&p.cfg));
    field(&mut o, "deps", map_dep_json(&p.deps));
    field(&mut o, "executor", string_or_null(&p.executor));
    field(&mut o, "executor_defaulted", Json::Bool(p.executor_defaulted));
    field(&mut o, "resources", map_resource_json(&p.resources));
    field(&mut o, "discover", Json::Bool(p.discover.is_some()));
    field(&mut o, "discover_cfg", make_mark_cfg(&p.discover));
    field(&mut o, "dataflow", string_arr(&p.dataflow));
    field(&mut o, "reads", map_signal_json(&p.reads));
    field(&mut o, "writes", map_signal_json(&p.writes));
    field(&mut o, "task", make_task_json(&p.task));
    field(&mut o, "policy", string(p.policy.text.as_str()));
    field(&mut o, "policy_ty", make_type_json(&p.policy_ty));
    field(&mut o, "min", string(p.min.text.as_str()));
    field(&mut o, "max", string(p.max.text.as_str()));
    field(&mut o, "slot_timeout_ms", make_lit_json(&p.slot_timeout_ms));
    field(&mut o, "slot_timeout_cfg", make_lit_cfg(&p.slot_timeout_ms));
    field(&mut o, "ack_timeout_ms", make_lit_json(&p.ack_timeout_ms));
    field(&mut o, "ack_timeout_cfg", make_lit_cfg(&p.ack_timeout_ms));
    field(&mut o, "state", make_state_json(&p.state));
    field(&mut o, "cancel", Json::Bool(p.cancel));
    obj(o)
}

/// An executor as JSON.
pub open spec fn executor_json(x: ExecutorModelV) -> JsonV {
    JsonV::Obj(
        no_fields()
            .push(("kind"@, JsonV::Str("executor"@)))
            .push(("name"@, JsonV::Str(x.name)))
            .push(("default"@, JsonV::Bool(x.default)))
            .push(("cfg"@, strings(x.cfg))),
    )
}

fn make_executor_json(x: &ExecutorModel) -> (r: Json)
    ensures
        r.deep_view() == executor_json(x.deep_view()),
{
    let mut o = new_fields();
    field(&mut o, "kind", string("executor"));
    field(&mut o, "name", string(x.name.as_str()));
    field(&mut o, "default", Json::Bool(x.default));
    field(&mut o, "cfg", string_arr(&x.cfg));
    obj(o)
}

/// An item as JSON.
pub open spec fn item_json(item: ItemModelV) -> JsonV {
    match item {
        ItemModelV::Node(n) => node_json(n),
        ItemModelV::Pool(p) => pool_json(p),
        ItemModelV::Executor(x) => executor_json(x),
    }
}

fn make_item_json(item: &ItemModel) -> (r: Json)
    ensures
        r.deep_view() == item_json(item.deep_view()),
{
    match item {
        ItemModel::Node(n) => make_node_json(n),
        ItemModel::Pool(p) => make_pool_json(p),
        ItemModel::Executor(x) => make_executor_json(x),
    }
}

/// The entries as a JSON array.
pub open spec fn item_jsons(v: Seq<ItemModelV>) -> JsonV {
    JsonV::Arr(Seq::new(v.len(), |i: int| item_json(v[i])))
}

fn map_item_json(v: &Vec<ItemModel>) -> (r: Json)
    ensures
        r.deep_view() == item_jsons(v.deep_view()),
{
    let ghost all = item_jsons(v.deep_view())->Arr_0;
    let mut out: Vec<Json> = Vec::new();
    let mut i: usize = 0;
    while i < v.len()
        invariant
            i <= v@.len(),
            all == item_jsons(v.deep_view())->Arr_0,
            out.deep_view() == all.take(i as int),
        decreases v@.len() - i,
    {
        put(&mut out, make_item_json(&v[i]));
        i = i + 1;
        assert(out.deep_view() == all.take(i as int));
    }
    assert(all.take(all.len() as int) == all);
    arr(out)
}

/// A declaration as JSON.
pub open spec fn graph_json(g: GraphModelV) -> JsonV {
    JsonV::Obj(
        no_fields()
            .push(("macro"@, JsonV::Str(g.macro_name)))
            .push(("name"@, opt_string(g.name)))
            .push(("origin"@, JsonV::Str(g.origin)))
            .push(("line"@, JsonV::Num(g.line as u64)))
            .push(("items"@, item_jsons(g.items))),
    )
}

fn make_graph_json(g: &GraphModel) -> (r: Json)
    ensures
        r.deep_view() == graph_json(g.deep_view()),
{
    let mut o = new_fields();
    field(&mut o, "macro", string(g.macro_name.as_str()));
    field(&mut o, "name", string_or_null(&g.name));
    field(&mut o, "origin", string(g.origin.as_str()));
    field(&mut o, "line", Json::Num(g.line as u64));
    field(&mut o, "items", map_item_json(&g.items));
    obj(o)
}

/// The entries as a JSON array.
pub open spec fn graph_jsons(v: Seq<GraphModelV>) -> JsonV {
    JsonV::Arr(Seq::new(v.len(), |i: int| graph_json(v[i])))
}

fn map_graph_json(v: &Vec<GraphModel>) -> (r: Json)
    ensures
        r.deep_view() == graph_jsons(v.deep_view()),
{
    let ghost all = graph_jsons(v.deep_view())->Arr_0;
    let mut out: Vec<Json> = Vec::new();
    let mut i: usize = 0;
    while i < v.len()
        invariant
            i <= v@.len(),
            all == graph_jsons(v.deep_view())->Arr_0,
            out.deep_view() == all.take(i as int),
        decreases v@.len() - i,
    {
        put(&mut out, make_graph_json(&v[i]));
        i = i + 1;
        assert(out.deep_view() == all.take(i as int));
    }
    assert(all.take(all.len() as int) == all);
    arr(out)
}

/// A discovered access as JSON.
pub open spec fn access_json(d: DiscoveredV) -> JsonV {
    JsonV::Obj(
        no_fields()
            .push(("module"@, JsonV::Str(d.module)))
            .push(("fn"@, JsonV::Str(d.access.func)))
            .push(("verb"@, JsonV::Str(d.access.verb)))
            .push(("write"@, JsonV::Bool(d.access.write)))
            .push(("path"@, JsonV::Str(d.access.path)))
            .push(("cfg"@, strings(d.access.cfgs))),
    )
}

fn make_access_json(d: &Discovered) -> (r: Json)
    ensures
        r.deep_view() == access_json(d.deep_view()),
{
    let mut o = new_fields();
    field(&mut o, "module", string(d.module.as_str()));
    field(&mut o, "fn", string(d.access.func.as_str()));
    field(&mut o, "verb", string(d.access.verb.as_str()));
    field(&mut o, "write", Json::Bool(d.access.write));
    field(&mut o, "path", string(d.access.path.as_str()));
    field(&mut o, "cfg", string_arr(&d.access.cfgs));
    obj(o)
}

/// The entries as a JSON array.
pub open spec fn access_jsons(v: Seq<DiscoveredV>) -> JsonV {
    JsonV::Arr(Seq::new(v.len(), |i: int| access_json(v[i])))
}

fn map_access_json(v: &Vec<Discovered>) -> (r: Json)
    ensures
        r.deep_view() == access_jsons(v.deep_view()),
{
    let ghost all = access_jsons(v.deep_view())->Arr_0;
    let mut out: Vec<Json> = Vec::new();
    let mut i: usize = 0;
    while i < v.len()
        invariant
            i <= v@.len(),
            all == access_jsons(v.deep_view())->Arr_0,
            out.deep_view() == all.take(i as int),
        decreases v@.len() - i,
    {
        put(&mut out, make_access_json(&v[i]));
        i = i + 1;
        assert(out.deep_view() == all.take(i as int));
    }
    assert(all.take(all.len() as int) == all);
    arr(out)
}

/// The declarations and the discovered accesses as JSON: a projection of the typed model.
pub open spec fn json_model(
    decls: Seq<DeclV>,
    discovered: Seq<DiscoveredV>,
) -> Seq<(Seq<char>, JsonV)> {
    no_fields().push(("graphs"@, graph_jsons(graph_models(decls)))).push(
        ("discovered"@, access_jsons(discovered)),
    )
}

fn model_fields(decls: &Vec<Decl>, discovered: &Vec<Discovered>) -> (r: Vec<(String, Json)>)
    ensures
        r.deep_view() == json_model(decls.deep_view(), discovered.deep_view()),
{
    let full = full_model(decls);
    let mut o = new_fields();
    field(&mut o, "graphs", map_graph_json(&full.graphs));
    field(&mut o, "discovered", map_access_json(discovered));
    o
}

/// The declarations and the discovered accesses as JSON.
pub fn model_json(decls: &Vec<Decl>, discovered: &Vec<Discovered>) -> (r: Json)
    ensures
        r.deep_view() == JsonV::Obj(json_model(decls.deep_view(), discovered.deep_view())),
{
    obj(model_fields(decls, discovered))
}

/// The declarations, the discovered accesses and the warnings as JSON.
pub fn model_json_with_warnings(
    decls: &Vec<Decl>,
    discovered: &Vec<Discovered>,
    warnings: &Vec<String>,
) -> (r: Json)
    ensures
        r.deep_view() == JsonV::Obj(
            json_model(decls.deep_view(), discovered.deep_view()).push(
                ("warnings"@, strings(warnings.deep_view())),
            ),
        ),
{
    let mut o = model_fields(decls, discovered);
    field(&mut o, "warnings", string_arr(warnings));
    obj(o)
}

/// The JSON is a projection of the typed model: declarations of one model give one JSON.
pub proof fn the_json_projects_the_model(a: Seq<DeclV>, b: Seq<DeclV>, discovered: Seq<DiscoveredV>)
    requires
        graph_models(a) == graph_models(b),
    ensures
        json_model(a, discovered) == json_model(b, discovered),
{
}

/// The model has a graph for every declaration, in their order.
pub proof fn the_model_has_every_graph(decls: Seq<DeclV>, i: int)
    requires
        0 <= i < decls.len(),
    ensures
        graph_models(decls).len() == decls.len(),
        graph_models(decls)[i] == graph_model(decls[i]),
{
}

} // verus!
