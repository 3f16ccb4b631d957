//! The JSON of a model holds every clause of it.

use vstd::prelude::*;

use crate::json::{opt_string, strings, JsonV};
use crate::model::{
    dep_json, dep_jsons, executor_json, item_json, lit_cfg, lit_json, mark_cfg, node_json,
    opt_task_json, pool_json, provide_json, provide_jsons, resource_json, resource_jsons,
    signal_json, signal_jsons, state_json, task_json, type_json, DepModelV, ExecutorModelV,
    ItemModelV, LitValueV, NodeModelV, PoolModelV, ProvideModelV, ResourceModelV, SignalModelV,
    StateModelV, TaskModelV,
};

verus! {

/// Two numbers that are written alike: both missing, or of one value, or of one text.
pub open spec fn same_number(a: Option<LitValueV>, b: Option<LitValueV>) -> bool {
    (a is Some) == (b is Some) && lit_json(a) == lit_json(b)
}

/// Two numbers of one clause, behind the same predicates.
pub open spec fn same_clause(a: Option<LitValueV>, b: Option<LitValueV>) -> bool {
    same_number(a, b) && (a is Some ==> a->0.cfg == b->0.cfg)
}

/// Two nodes that agree in every clause; numbers may be spelled differently.
pub open spec fn same_node(a: NodeModelV, b: NodeModelV) -> bool {
    &&& same_number(a.pool_size, b.pool_size)
    &&& same_clause(a.slot_timeout_ms, b.slot_timeout_ms)
    &&& same_clause(a.ack_timeout_ms, b.ack_timeout_ms)
    &&& same_clause(a.beat_timeout_ms, b.beat_timeout_ms)
    &&& same_clause(a.beat_window, b.beat_window)
    &&& b == NodeModelV {
        pool_size: b.pool_size,
        slot_timeout_ms: b.slot_timeout_ms,
        ack_timeout_ms: b.ack_timeout_ms,
        beat_timeout_ms: b.beat_timeout_ms,
        beat_window: b.beat_window,
        ..a
    }
}

/// Two pools that agree in every clause; numbers may be spelled differently, and expressions agree
/// in their tokens.
pub open spec fn same_pool(a: PoolModelV, b: PoolModelV) -> bool {
    &&& same_clause(a.slot_timeout_ms, b.slot_timeout_ms)
    &&& same_clause(a.ack_timeout_ms, b.ack_timeout_ms)
    &&& a.policy.text == b.policy.text
    &&& a.min.text == b.min.text
    &&& a.max.text == b.max.text
    &&& b == PoolModelV {
        slot_timeout_ms: b.slot_timeout_ms,
        ack_timeout_ms: b.ack_timeout_ms,
        policy: b.policy,
        min: b.min,
        max: b.max,
        ..a
    }
}

/// Two items that agree in every clause.
pub open spec fn same_item(a: ItemModelV, b: ItemModelV) -> bool {
    match (a, b) {
        (ItemModelV::Node(x), ItemModelV::Node(y)) => same_node(x, y),
        (ItemModelV::Pool(x), ItemModelV::Pool(y)) => same_pool(x, y),
        (ItemModelV::Executor(x), ItemModelV::Executor(y)) => x == y,
        _ => false,
    }
}

proof fn lemma_strings(a: Seq<Seq<char>>, b: Seq<Seq<char>>)
    requires
        strings(a) == strings(b),
    ensures
        a == b,
{
    let x = strings(a)->Arr_0;
    let y = strings(b)->Arr_0;
    assert(x.len() == a.len());
    assert(y.len() == b.len());
    assert forall|i: int| 0 <= i < a.len() implies a[i] == b[i] by {
        assert(x[i] == JsonV::Str(a[i]));
        assert(y[i] == JsonV::Str(b[i]));
    }
}

proof fn lemma_marks(a: Option<Seq<Seq<char>>>, b: Option<Seq<Seq<char>>>)
    requires
        (a is Some) == (b is Some),
        mark_cfg(a) == mark_cfg(b),
    ensures
        a == b,
{
    if a is Some {
        lemma_strings(a->0, b->0);
    }
}

proof fn lemma_literals(a: Option<LitValueV>, b: Option<LitValueV>)
    requires
        lit_json(a) == lit_json(b),
        lit_cfg(a) == lit_cfg(b),
    ensures
        same_clause(a, b),
{
    if a is Some && b is Some {
        lemma_strings(a->0.cfg, b->0.cfg);
    }
}

proof fn lemma_dep(a: DepModelV, b: DepModelV)
    requires
        dep_json(a) == dep_json(b),
    ensures
        a == b,
{
    let x = dep_json(a)->Obj_0;
    let y = dep_json(b)->Obj_0;
    assert(x[0] == y[0]);
    assert(x[1] == y[1]);
    assert(x[2] == y[2]);
    assert(x[3] == y[3]);
    lemma_strings(a.cfg, b.cfg);
}

proof fn lemma_deps(a: Seq<DepModelV>, b: Seq<DepModelV>)
    requires
        dep_jsons(a) == dep_jsons(b),
    ensures
        a == b,
{
    let x = dep_jsons(a)->Arr_0;
    let y = dep_jsons(b)->Arr_0;
    assert(x.len() == a.len());
    assert(y.len() == b.len());
    assert forall|i: int| 0 <= i < a.len() implies a[i] == b[i] by {
        assert(x[i] == dep_json(a[i]));
        assert(y[i] == dep_json(b[i]));
        lemma_dep(a[i], b[i]);
    }
}

proof fn lemma_signal(a: SignalModelV, b: SignalModelV)
    requires
        signal_json(a) == signal_json(b),
    ensures
        a == b,
{
    let x = signal_json(a)->Obj_0;
    let y = signal_json(b)->Obj_0;
    assert(x[0] == y[0]);
    assert(x[1] == y[1]);
    assert(x[2] == y[2]);
    assert(x[3] == y[3]);
    assert(x[4] == y[4]);
    assert(x[5] == y[5]);
    lemma_strings(a.cfg, b.cfg);
}

proof fn lemma_signals(a: Seq<SignalModelV>, b: Seq<SignalModelV>)
    requires
        signal_jsons(a) == signal_jsons(b),
    ensures
        a == b,
{
    let x = signal_jsons(a)->Arr_0;
    let y = signal_jsons(b)->Arr_0;
    assert(x.len() == a.len());
    assert(y.len() == b.len());
    assert forall|i: int| 0 <= i < a.len() implies a[i] == b[i] by {
        assert(x[i] == signal_json(a[i]));
        assert(y[i] == signal_json(b[i]));
        lemma_signal(a[i], b[i]);
    }
}

proof fn lemma_resource(a: ResourceModelV, b: ResourceModelV)
    requires
        resource_json(a) == resource_json(b),
    ensures
        a == b,
{
    let x = resource_json(a)->Obj_0;
    let y = resource_json(b)->Obj_0;
    assert(x[0] == y[0]);
    assert(x[1] == y[1]);
    assert(x[2] == y[2]);
    assert(x[3] == y[3]);
    assert(x[4] == y[4]);
    assert(x[5] == y[5]);
    assert(x[6] == y[6]);
    lemma_strings(a.cfg, b.cfg);
}

proof fn lemma_resources(a: Seq<ResourceModelV>, b: Seq<ResourceModelV>)
    requires
        resource_jsons(a) == resource_jsons(b),
    ensures
        a == b,
{
    let x = resource_jsons(a)->Arr_0;
    let y = resource_jsons(b)->Arr_0;
    assert(x.len() == a.len());
    assert(y.len() == b.len());
    assert forall|i: int| 0 <= i < a.len() implies a[i] == b[i] by {
        assert(x[i] == resource_json(a[i]));
        assert(y[i] == resource_json(b[i]));
        lemma_resource(a[i], b[i]);
    }
}

proof fn lemma_provide(a: ProvideModelV, b: ProvideModelV)
    requires
        provide_json(a) == provide_json(b),
    ensures
        a == b,
{
    let x = provide_json(a)->Obj_0;
    let y = provide_json(b)->Obj_0;
    assert(x[0] == y[0]);
    assert(x[1] == y[1]);
    lemma_strings(a.cfg, b.cfg);
}

proof fn lemma_provides(a: Seq<ProvideModelV>, b: Seq<ProvideModelV>)
    requires
        provide_jsons(a) == provide_jsons(b),
    ensures
        a == b,
{
    let x = provide_jsons(a)->Arr_0;
    let y = provide_jsons(b)->Arr_0;
    assert(x.len() == a.len());
    assert(y.len() == b.len());
    assert forall|i: int| 0 <= i < a.len() implies a[i] == b[i] by {
        assert(x[i] == provide_json(a[i]));
        assert(y[i] == provide_json(b[i]));
        lemma_provide(a[i], b[i]);
    }
}

proof fn lemma_task(a: TaskModelV, b: TaskModelV)
    requires
        task_json(a) == task_json(b),
    ensures
        a == b,
{
    let x = task_json(a)->Obj_0;
    let y = task_json(b)->Obj_0;
    assert(x[0] == y[0]);
    assert(x[1] == y[1]);
    reveal_strlit("spawn");
    reveal_strlit("task");
    assert("spawn"@.len() != "task"@.len());
}

proof fn lemma_state(a: Option<StateModelV>, b: Option<StateModelV>)
    requires
        state_json(a) == state_json(b),
    ensures
        a == b,
{
    if a is Some && b is Some {
        let x = state_json(a)->Obj_0;
        let y = state_json(b)->Obj_0;
        assert(x[0] == y[0]);
        assert(x[1] == y[1]);
    }
}

#[verifier::spinoff_prover]
#[verifier::rlimit(60)]
proof fn lemma_node_at(n: NodeModelV)
    ensures
        node_json(n)->Obj_0[0].1 == JsonV::Str("node"@),
        node_json(n)->Obj_0[1].1 == JsonV::Str(n.name),
        node_json(n)->Obj_0[2].1 == JsonV::Str(n.mode),
        node_json(n)->Obj_0[3].1 == strings(n.cfg),
        node_json(n)->Obj_0[4].1 == dep_jsons(n.deps),
        node_json(n)->Obj_0[5].1 == opt_string(n.executor),
        node_json(n)->Obj_0[6].1 == JsonV::Bool(n.executor_defaulted),
        node_json(n)->Obj_0[7].1 == resource_jsons(n.resources),
        node_json(n)->Obj_0[8].1 == provide_jsons(n.provides),
        node_json(n)->Obj_0[9].1 == JsonV::Bool(n.discover is Some),
        node_json(n)->Obj_0[10].1 == mark_cfg(n.discover),
        node_json(n)->Obj_0[11].1 == strings(n.dataflow),
        node_json(n)->Obj_0[12].1 == signal_jsons(n.reads),
        node_json(n)->Obj_0[13].1 == signal_jsons(n.writes),
        node_json(n)->Obj_0[14].1 == JsonV::Bool(n.disabled is Some),
        node_json(n)->Obj_0[15].1 == mark_cfg(n.disabled),
        node_json(n)->Obj_0[16].1 == JsonV::Bool(n.task is None),
        node_json(n)->Obj_0[17].1 == opt_task_json(n.task),
        node_json(n)->Obj_0[18].1 == lit_json(n.pool_size),
        node_json(n)->Obj_0[19].1 == lit_json(n.slot_timeout_ms),
        node_json(n)->Obj_0[20].1 == lit_cfg(n.slot_timeout_ms),
        node_json(n)->Obj_0[21].1 == lit_json(n.ack_timeout_ms),
        node_json(n)->Obj_0[22].1 == lit_cfg(n.ack_timeout_ms),
        node_json(n)->Obj_0[23].1 == lit_json(n.beat_timeout_ms),
        node_json(n)->Obj_0[24].1 == lit_cfg(n.beat_timeout_ms),
        node_json(n)->Obj_0[25].1 == lit_json(n.beat_window),
        node_json(n)->Obj_0[26].1 == lit_cfg(n.beat_window),
        node_json(n)->Obj_0[27].1 == JsonV::Bool(n.ready_on_write is Some),
        node_json(n)->Obj_0[28].1 == mark_cfg(n.ready_on_write),
        node_json(n)->Obj_0[29].1 == type_json(n.exit),
        node_json(n)->Obj_0[30].1 == state_json(n.state),
        node_json(n)->Obj_0[31].1 == JsonV::Bool(n.cancel),
{
}

proof fn lemma_node_fields(a: NodeModelV, b: NodeModelV)
    requires
        node_json(a) == node_json(b),
    ensures
        JsonV::Str(a.name) == JsonV::Str(b.name),
        JsonV::Str(a.mode) == JsonV::Str(b.mode),
        strings(a.cfg) == strings(b.cfg),
        dep_jsons(a.deps) == dep_jsons(b.deps),
        opt_string(a.executor) == opt_string(b.executor),
        JsonV::Bool(a.executor_defaulted) == JsonV::Bool(b.executor_defaulted),
        resource_jsons(a.resources) == resource_jsons(b.resources),
        provide_jsons(a.provides) == provide_jsons(b.provides),
        JsonV::Bool(a.discover is Some) == JsonV::Bool(b.discover is Some),
        mark_cfg(a.discover) == mark_cfg(b.discover),
        strings(a.dataflow) == strings(b.dataflow),
        signal_jsons(a.reads) == signal_jsons(b.reads),
        signal_jsons(a.writes) == signal_jsons(b.writes),
        JsonV::Bool(a.disabled is Some) == JsonV::Bool(b.disabled is Some),
        mark_cfg(a.disabled) == mark_cfg(b.disabled),
        JsonV::Bool(a.task is None) == JsonV::Bool(b.task is None),
        opt_task_json(a.task) == opt_task_json(b.task),
        lit_json(a.pool_size) == lit_json(b.pool_size),
        lit_json(a.slot_timeout_ms) == lit_json(b.slot_timeout_ms),
        lit_cfg(a.slot_timeout_ms) == lit_cfg(b.slot_timeout_ms),
        lit_json(a.ack_timeout_ms) == lit_json(b.ack_timeout_ms),
        lit_cfg(a.ack_timeout_ms) == lit_cfg(b.ack_timeout_ms),
        lit_json(a.beat_timeout_ms) == lit_json(b.beat_timeout_ms),
        lit_cfg(a.beat_timeout_ms) == lit_cfg(b.beat_timeout_ms),
        lit_json(a.beat_window) == lit_json(b.beat_window),
        lit_cfg(a.beat_window) == lit_cfg(b.beat_window),
        JsonV::Bool(a.ready_on_write is Some) == JsonV::Bool(b.ready_on_write is Some),
        mark_cfg(a.ready_on_write) == mark_cfg(b.ready_on_write),
        type_json(a.exit) == type_json(b.exit),
        state_json(a.state) == state_json(b.state),
        JsonV::Bool(a.cancel) == JsonV::Bool(b.cancel),
{
    lemma_node_at(a);
    lemma_node_at(b);
}

#[verifier::spinoff_prover]
#[verifier::rlimit(60)]
proof fn lemma_pool_at(p: PoolModelV)
    ensures
        pool_json(p)->Obj_0[0].1 == JsonV::Str("pool"@),
        pool_json(p)->Obj_0[1].1 == JsonV::Str(p.name),
        pool_json(p)->Obj_0[2].1 == strings(p.modes),
        pool_json(p)->Obj_0[3].1 == strings(p.cfg),
        pool_json(p)->Obj_0[4].1 == dep_jsons(p.deps),
        pool_json(p)->Obj_0[5].1 == opt_string(p.executor),
        pool_json(p)->Obj_0[6].1 == JsonV::Bool(p.executor_defaulted),
        pool_json(p)->Obj_0[7].1 == resource_jsons(p.resources),
        pool_json(p)->Obj_0[8].1 == JsonV::Bool(p.discover is Some),
        pool_json(p)->Obj_0[9].1 == mark_cfg(p.discover),
        pool_json(p)->Obj_0[10].1 == strings(p.dataflow),
        pool_json(p)->Obj_0[11].1 == signal_jsons(p.reads),
        pool_json(p)->Obj_0[12].1 == signal_jsons(p.writes),
        pool_json(p)->Obj_0[13].1 == task_json(p.task),
        pool_json(p)->Obj_0[14].1 == JsonV::Str(p.policy.text),
        pool_json(p)->Obj_0[15].1 == type_json(p.policy_ty),
        pool_json(p)->Obj_0[16].1 == JsonV::Str(p.min.text),
        pool_json(p)->Obj_0[17].1 == JsonV::Str(p.max.text),
        pool_json(p)->Obj_0[18].1 == lit_json(p.slot_timeout_ms),
        pool_json(p)->Obj_0[19].1 == lit_cfg(p.slot_timeout_ms),
        pool_json(p)->Obj_0[20].1 == lit_json(p.ack_timeout_ms),
        pool_json(p)->Obj_0[21].1 == lit_cfg(p.ack_timeout_ms),
        pool_json(p)->Obj_0[22].1 == state_json(p.state),
        pool_json(p)->Obj_0[23].1 == JsonV::Bool(p.cancel),
{
}

proof fn lemma_pool_fields(a: PoolModelV, b: PoolModelV)
    requires
        pool_json(a) == pool_json(b),
    ensures
        JsonV::Str(a.name) == JsonV::Str(b.name),
        strings(a.modes) == strings(b.modes),
        strings(a.cfg) == strings(b.cfg),
        dep_jsons(a.deps) == dep_jsons(b.deps),
        opt_string(a.executor) == opt_string(b.executor),
        JsonV::Bool(a.executor_defaulted) == JsonV::Bool(b.executor_defaulted),
        resource_jsons(a.resources) == resource_jsons(b.resources),
        JsonV::Bool(a.discover is Some) == JsonV::Bool(b.discover is Some),
        mark_cfg(a.discover) == mark_cfg(b.discover),
        strings(a.dataflow) == strings(b.dataflow),
        signal_jsons(a.reads) == signal_jsons(b.reads),
        signal_jsons(a.writes) == signal_jsons(b.writes),
        task_json(a.task) == task_json(b.task),
        JsonV::Str(a.policy.text) == JsonV::Str(b.policy.text),
        type_json(a.policy_ty) == type_json(b.policy_ty),
        JsonV::Str(a.min.text) == JsonV::Str(b.min.text),
        JsonV::Str(a.max.text) == JsonV::Str(b.max.text),
        lit_json(a.slot_timeout_ms) == lit_json(b.slot_timeout_ms),
        lit_cfg(a.slot_timeout_ms) == lit_cfg(b.slot_timeout_ms),
        lit_json(a.ack_timeout_ms) == lit_json(b.ack_timeout_ms),
        lit_cfg(a.ack_timeout_ms) == lit_cfg(b.ack_timeout_ms),
        state_json(a.state) == state_json(b.state),
        JsonV::Bool(a.cancel) == JsonV::Bool(b.cancel),
{
    lemma_pool_at(a);
    lemma_pool_at(b);
}

proof fn lemma_node(a: NodeModelV, b: NodeModelV)
    requires
        node_json(a) == node_json(b),
    ensures
        same_node(a, b),
{
    lemma_node_fields(a, b);
    lemma_strings(a.cfg, b.cfg);
    lemma_deps(a.deps, b.deps);
    lemma_resources(a.resources, b.resources);
    lemma_provides(a.provides, b.provides);
    lemma_marks(a.discover, b.discover);
    lemma_strings(a.dataflow, b.dataflow);
    lemma_signals(a.reads, b.reads);
    lemma_signals(a.writes, b.writes);
    lemma_marks(a.disabled, b.disabled);
    if a.task is Some && b.task is Some {
        lemma_task(a.task->0, b.task->0);
    }
    lemma_literals(a.slot_timeout_ms, b.slot_timeout_ms);
    lemma_literals(a.ack_timeout_ms, b.ack_timeout_ms);
    lemma_literals(a.beat_timeout_ms, b.beat_timeout_ms);
    lemma_literals(a.beat_window, b.beat_window);
    lemma_marks(a.ready_on_write, b.ready_on_write);
    lemma_state(a.state, b.state);
}

proof fn lemma_pool(a: PoolModelV, b: PoolModelV)
    requires
        pool_json(a) == pool_json(b),
    ensures
        same_pool(a, b),
{
    lemma_pool_fields(a, b);
    lemma_strings(a.modes, b.modes);
    lemma_strings(a.cfg, b.cfg);
    lemma_deps(a.deps, b.deps);
    lemma_resources(a.resources, b.resources);
    lemma_marks(a.discover, b.discover);
    lemma_strings(a.dataflow, b.dataflow);
    lemma_signals(a.reads, b.reads);
    lemma_signals(a.writes, b.writes);
    lemma_task(a.task, b.task);
    lemma_literals(a.slot_timeout_ms, b.slot_timeout_ms);
    lemma_literals(a.ack_timeout_ms, b.ack_timeout_ms);
    lemma_state(a.state, b.state);
}

/// The kind that the JSON of an item names.
spec fn kind_of(item: ItemModelV) -> Seq<char> {
    match item {
        ItemModelV::Node(_) => "node"@,
        ItemModelV::Pool(_) => "pool"@,
        ItemModelV::Executor(_) => "executor"@,
    }
}

#[verifier::spinoff_prover]
#[verifier::rlimit(60)]
proof fn lemma_kind(item: ItemModelV)
    ensures
        item_json(item) is Obj,
        item_json(item)->Obj_0[0] == ("kind"@, JsonV::Str(kind_of(item))),
{
    match item {
        ItemModelV::Node(n) => assert(node_json(n)->Obj_0[0].1 == JsonV::Str("node"@)),
        ItemModelV::Pool(p) => assert(pool_json(p)->Obj_0[0].1 == JsonV::Str("pool"@)),
        ItemModelV::Executor(x) => assert(executor_json(x)->Obj_0[0].1 == JsonV::Str("executor"@)),
    }
}

proof fn lemma_executor(a: ExecutorModelV, b: ExecutorModelV)
    requires
        executor_json(a) == executor_json(b),
    ensures
        a == b,
{
    let x = executor_json(a)->Obj_0;
    let y = executor_json(b)->Obj_0;
    assert(x[1] == y[1]);
    assert(x[2] == y[2]);
    assert(x[3] == y[3]);
    lemma_strings(a.cfg, b.cfg);
}

/// The JSON of an item holds its every clause: two items of one JSON agree in all of them.
pub proof fn the_json_holds_every_clause(a: ItemModelV, b: ItemModelV)
    requires
        item_json(a) == item_json(b),
    ensures
        same_item(a, b),
{
    lemma_kind(a);
    lemma_kind(b);
    assert(kind_of(a) == kind_of(b));
    reveal_strlit("node");
    reveal_strlit("pool");
    reveal_strlit("executor");
    assert("node"@[0] != "pool"@[0]);
    assert("executor"@.len() == 8);
    match (a, b) {
        (ItemModelV::Node(n), ItemModelV::Node(m)) => lemma_node(n, m),
        (ItemModelV::Pool(p), ItemModelV::Pool(q)) => lemma_pool(p, q),
        (ItemModelV::Executor(u), ItemModelV::Executor(v)) => lemma_executor(u, v),
        _ => {},
    }
}

} // verus!
