//! What the model and its JSON say of a declaration: every clause of every item, in its own field.

use vstd::prelude::*;

use crate::ast::{
    signal_name, stripped, AdoptedFnV, DepV, GatedV, ItemV, NodeItemV, PoolItemV, ProvideDeclV,
    ResourceDeclV, SignalDeclV, StateDeclV, StateInitV, TaskSourceV,
};
use crate::discover::DiscoveredV;
use crate::find::{DeclKind, DeclV};
use crate::json::{strings, JsonV};
use crate::lists::is_cfg;
use crate::model::{
    access_jsons, adopted_paths, cfg_texts, cfg_texts_from, dep_jsons, dep_models, graph_json,
    graph_jsons, graph_model, graph_models, item_json, item_jsons, item_model, item_models,
    json_model, lit_cfg, lit_json, lit_model, mark_cfg, mark_model, node_json, node_model,
    pool_json, pool_model, provide_jsons, provide_models, resource_jsons, resource_models,
    signal_json, signal_jsons, signal_model, signal_models, state_json, state_model, task_json,
    task_model, DepModelV, LitValueV, NodeModelV, PoolModelV, ProvideModelV, ResourceModelV,
    SignalModelV, StateModelV, TaskKind, TaskModelV, TypeValueV,
};
use crate::rust::{AttrV, IntLitV};
use crate::text::joined;

verus! {

/// A signal is named by the segments of its path, and by its index in brackets where it has one.
pub proof fn a_signal_is_named_by_its_path_and_index(s: SignalDeclV)
    ensures
        !s.path.leading && s.index is None ==> signal_name(s) == joined(s.path.segments, "::"@),
        s.path.leading && s.index is None ==> signal_name(s) == "::"@ + joined(s.path.segments, "::"@),
        !s.path.leading && s.index is Some ==> signal_name(s) == joined(s.path.segments, "::"@) + "["@
            + stripped(s.index->0.text) + "]"@,
        s.path.leading && s.index is Some ==> signal_name(s) == "::"@ + joined(s.path.segments, "::"@)
            + "["@ + stripped(s.index->0.text) + "]"@,
{
    reveal_strlit("");
    assert(""@ + joined(s.path.segments, "::"@) == joined(s.path.segments, "::"@));
}

proof fn lemma_cfg_texts(attrs: Seq<AttrV>, i: int, acc: Seq<Seq<char>>, x: Seq<char>)
    requires
        0 <= i,
    ensures
        cfg_texts_from(attrs, i, acc).contains(x) <==> acc.contains(x) || exists|k: int|
            i <= k < attrs.len() && (#[trigger] attrs[k]).list is Some && attrs[k].path == seq!["cfg"@]
                && x == stripped(attrs[k].list->0),
    decreases attrs.len() - i,
{
    if i < attrs.len() {
        let next = if is_cfg(attrs[i]) {
            acc.push(stripped(attrs[i].list->0))
        } else {
            acc
        };
        lemma_cfg_texts(attrs, i + 1, next, x);
        if is_cfg(attrs[i]) {
            assert(next[acc.len() as int] == stripped(attrs[i].list->0));
            if acc.contains(x) {
                let m = choose|m: int| 0 <= m < acc.len() && acc[m] == x;
                assert(next[m] == x);
            }
        }
    }
}

/// The predicates of an entry are those of its `cfg` lists, and no others.
pub proof fn the_predicates_are_those_of_the_cfg_lists(attrs: Seq<AttrV>, x: Seq<char>)
    ensures
        cfg_texts(attrs).contains(x) <==> exists|k: int|
            0 <= k < attrs.len() && (#[trigger] attrs[k]).list is Some && attrs[k].path == seq!["cfg"@]
                && x == stripped(attrs[k].list->0),
{
    lemma_cfg_texts(attrs, 0, Seq::empty(), x);
}

/// The model of a signal entry has its name, its markers, its accessor and its predicates.
pub open spec fn tells_signal(m: SignalModelV, s: SignalDeclV) -> bool {
    &&& m.path == signal_name(s)
    &&& m.observed == s.observed
    &&& m.beat == s.beat
    &&& m.veto == s.veto
    &&& m.cfg == cfg_texts(s.cfg)
    &&& match (m.via, s.via) {
        (Some(t), Some(e)) => t == e.text,
        (None, None) => true,
        _ => false,
    }
}

/// The model of a list of signals has one entry for each of its entries, in order.
pub open spec fn tells_signals(m: Seq<SignalModelV>, s: Seq<SignalDeclV>) -> bool {
    m.len() == s.len() && forall|k: int| 0 <= k < s.len() ==> tells_signal(m[k], #[trigger] s[k])
}

/// The model of a list of deps has the name, the markers and the predicates of each, in order.
pub open spec fn tells_deps(m: Seq<DepModelV>, d: Seq<DepV>) -> bool {
    m.len() == d.len() && forall|k: int|
        0 <= k < d.len() ==> m[k].name == (#[trigger] d[k]).ident && m[k].ready == d[k].ready
            && m[k].bound == d[k].bound && m[k].cfg == cfg_texts(d[k].cfg)
}

/// The model of a list of resources has the name, the markers and the predicates of each, in order.
pub open spec fn tells_resources(m: Seq<ResourceModelV>, r: Seq<ResourceDeclV>) -> bool {
    m.len() == r.len() && forall|k: int|
        0 <= k < r.len() ==> m[k].name == (#[trigger] r[k]).ident && m[k].local == r[k].local
            && m[k].consume == r[k].consume && m[k].shared == r[k].shared && m[k].divisible
            == r[k].divisible && m[k].serialized == r[k].serialized && m[k].cfg == cfg_texts(r[k].cfg)
}

/// The model of a list of provided slots has the name and the predicates of each, in order.
pub open spec fn tells_provides(m: Seq<ProvideModelV>, p: Seq<ProvideDeclV>) -> bool {
    m.len() == p.len() && forall|k: int|
        0 <= k < p.len() ==> m[k].name == (#[trigger] p[k]).ident && m[k].cfg == cfg_texts(p[k].cfg)
}

/// The model of a list of adopted functions has the path of each, in order.
pub open spec fn tells_dataflow(m: Seq<Seq<char>>, f: Seq<AdoptedFnV>) -> bool {
    m.len() == f.len() && forall|k: int|
        0 <= k < f.len() ==> m[k] == joined((#[trigger] f[k]).path.segments, "::"@)
}

/// The model of a gated number has the number and the predicates of the clause.
pub open spec fn tells_number(m: Option<LitValueV>, g: Option<GatedV<IntLitV>>) -> bool {
    match (m, g) {
        (Some(v), Some(x)) => v.lit == x.value && v.text == x.value.text && v.cfg == cfg_texts(x.cfg),
        (None, None) => true,
        _ => false,
    }
}

/// The model of a gated marker has the predicates of the marker.
pub open spec fn tells_marker(m: Option<Seq<Seq<char>>>, g: Option<GatedV<()>>) -> bool {
    match (m, g) {
        (Some(v), Some(x)) => v == cfg_texts(x.cfg),
        (None, None) => true,
        _ => false,
    }
}

/// The model of a task says by which clause it was given, and its tokens.
pub open spec fn tells_task(m: TaskModelV, t: TaskSourceV) -> bool {
    match t {
        TaskSourceV::Spawn(e) => m.kind == TaskKind::Spawn && m.path == e.text,
        TaskSourceV::Shell(e) => m.kind == TaskKind::Shell && m.path == e.text,
    }
}

/// The model of a type clause has its tokens.
pub open spec fn tells_type(m: Option<TypeValueV>, t: Option<Seq<char>>) -> bool {
    match (m, t) {
        (Some(v), Some(x)) => v.text == x,
        (None, None) => true,
        _ => false,
    }
}

/// The model of a `state:` clause has its type and how it starts.
pub open spec fn tells_state(m: Option<StateModelV>, s: Option<StateDeclV>) -> bool {
    match (m, s) {
        (Some(v), Some(x)) => v.ty.text == x.ty && (match x.init {
            StateInitV::Expr(e) => v.init == e.text,
            StateInitV::Zeroed => v.init == "zeroed"@,
        }),
        (None, None) => true,
        _ => false,
    }
}

/// The model lists the declarations in order, and the items of each in order, under the macro, the
/// name, the file and the line of the declaration.
pub proof fn the_model_lists_every_item(decls: Seq<DeclV>, i: int)
    requires
        0 <= i < decls.len(),
    ensures
        graph_models(decls).len() == decls.len(),
        graph_models(decls)[i].macro_name == (match decls[i].kind {
            DeclKind::Graph => "supervisor_graph!"@,
            DeclKind::Fragment => "supervisor_fragment!"@,
            DeclKind::Compose => "compose_graph!"@,
        }),
        graph_models(decls)[i].name == decls[i].spec.name,
        graph_models(decls)[i].origin == decls[i].origin,
        graph_models(decls)[i].line == decls[i].line,
        graph_models(decls)[i].items.len() == decls[i].spec.items.len(),
{
}

/// The model of a declared node has every clause of it, each in its own field.
pub proof fn the_model_of_a_node_has_every_clause(decls: Seq<DeclV>, i: int, k: int, n: NodeItemV)
    requires
        0 <= i < decls.len(),
        0 <= k < decls[i].spec.items.len(),
        decls[i].spec.items[k] == ItemV::Node(n),
    ensures
        graph_models(decls)[i].items[k] is Node,
        ({
            let m: NodeModelV = graph_models(decls)[i].items[k]->Node_0;
            &&& m.name == n.ident
            &&& m.mode == n.mode
            &&& m.cfg == cfg_texts(n.cfg)
            &&& tells_deps(m.deps, n.deps)
            &&& (m.task is Some) == (n.source is Some)
            &&& (n.source is Some ==> tells_task(m.task->0, n.source->0))
            &&& (m.pool_size is Some) == (n.pool_size is Some)
            &&& (n.pool_size is Some ==> m.pool_size->0.lit == n.pool_size->0 && m.pool_size->0.text
                == n.pool_size->0.text && m.pool_size->0.cfg.len() == 0)
            &&& tells_resources(m.resources, n.resources)
            &&& tells_provides(m.provides, n.provides)
            &&& tells_marker(m.disabled, n.disabled)
            &&& m.executor == n.executor
            &&& m.executor_defaulted == n.executor_defaulted
            &&& tells_number(m.slot_timeout_ms, n.slot_timeout)
            &&& tells_number(m.ack_timeout_ms, n.ack_timeout)
            &&& tells_number(m.beat_timeout_ms, n.beat_timeout)
            &&& tells_number(m.beat_window, n.beat_window)
            &&& tells_marker(m.ready_on_write, n.ready_on_write)
            &&& tells_signals(m.reads, n.reads)
            &&& tells_signals(m.writes, n.writes)
            &&& tells_type(m.exit, n.exit)
            &&& tells_state(m.state, n.state)
            &&& m.cancel == n.cancel
            &&& tells_marker(m.discover, n.discover)
            &&& tells_dataflow(m.dataflow, n.dataflow)
        }),
{
}

/// The model of a declared pool has every clause of it, each in its own field.
pub proof fn the_model_of_a_pool_has_every_clause(decls: Seq<DeclV>, i: int, k: int, p: PoolItemV)
    requires
        0 <= i < decls.len(),
        0 <= k < decls[i].spec.items.len(),
        decls[i].spec.items[k] == ItemV::Pool(p),
    ensures
        graph_models(decls)[i].items[k] is Pool,
        ({
            let m: PoolModelV = graph_models(decls)[i].items[k]->Pool_0;
            &&& m.name == p.ident
            &&& m.modes == p.modes
            &&& m.cfg == cfg_texts(p.cfg)
            &&& tells_deps(m.deps, p.deps)
            &&& tells_task(m.task, p.source)
            &&& m.policy.expr == p.policy
            &&& m.policy.text == p.policy.text
            &&& tells_type(m.policy_ty, p.policy_ty)
            &&& m.executor == p.executor
            &&& m.executor_defaulted == p.executor_defaulted
            &&& tells_resources(m.resources, p.resources)
            &&& tells_number(m.slot_timeout_ms, p.slot_timeout)
            &&& tells_number(m.ack_timeout_ms, p.ack_timeout)
            &&& tells_signals(m.reads, p.reads)
            &&& tells_signals(m.writes, p.writes)
            &&& m.min.expr == p.min
            &&& m.min.text == p.min.text
            &&& m.max.expr == p.max
            &&& m.max.text == p.max.text
            &&& tells_state(m.state, p.state)
            &&& m.cancel == p.cancel
            &&& tells_marker(m.discover, p.discover)
            &&& tells_dataflow(m.dataflow, p.dataflow)
        }),
{
}

/// The model of a declared executor has its name, whether it is the default, and its predicates.
pub proof fn the_model_of_an_executor_has_every_clause(decls: Seq<DeclV>, i: int, k: int)
    requires
        0 <= i < decls.len(),
        0 <= k < decls[i].spec.items.len(),
        decls[i].spec.items[k] is Executor,
    ensures
        graph_models(decls)[i].items[k] is Executor,
        graph_models(decls)[i].items[k]->Executor_0.name == decls[i].spec.items[k]->Executor_0.ident,
        graph_models(decls)[i].items[k]->Executor_0.default == decls[i].spec.items[k]->Executor_0.default,
        graph_models(decls)[i].items[k]->Executor_0.cfg == cfg_texts(
            decls[i].spec.items[k]->Executor_0.cfg,
        ),
{
}

/// Two nodes of one model agree in what they read, write, need, take and provide.
pub proof fn nodes_of_one_model_agree(a: NodeItemV, b: NodeItemV, x: DeclV, y: DeclV, i: int, j: int)
    requires
        0 <= i < x.spec.items.len(),
        0 <= j < y.spec.items.len(),
        x.spec.items[i] == ItemV::Node(a),
        y.spec.items[j] == ItemV::Node(b),
        graph_models(seq![x])[0].items[i] == graph_models(seq![y])[0].items[j],
    ensures
        a.ident == b.ident,
        a.mode == b.mode,
        a.cancel == b.cancel,
        a.executor == b.executor,
        a.reads.len() == b.reads.len(),
        a.writes.len() == b.writes.len(),
        forall|k: int|
            0 <= k < a.reads.len() ==> signal_name(#[trigger] a.reads[k]) == signal_name(b.reads[k])
                && a.reads[k].observed == b.reads[k].observed && a.reads[k].beat == b.reads[k].beat
                && a.reads[k].veto == b.reads[k].veto,
        forall|k: int|
            0 <= k < a.writes.len() ==> signal_name(#[trigger] a.writes[k]) == signal_name(b.writes[k])
                && a.writes[k].observed == b.writes[k].observed && a.writes[k].beat
                == b.writes[k].beat && a.writes[k].veto == b.writes[k].veto,
        a.deps.len() == b.deps.len(),
        forall|k: int|
            0 <= k < a.deps.len() ==> (#[trigger] a.deps[k]).ident == b.deps[k].ident && a.deps[k].ready
                == b.deps[k].ready && a.deps[k].bound == b.deps[k].bound,
        a.resources.len() == b.resources.len(),
        forall|k: int|
            0 <= k < a.resources.len() ==> (#[trigger] a.resources[k]).ident == b.resources[k].ident
                && a.resources[k].local == b.resources[k].local && a.resources[k].consume
                == b.resources[k].consume && a.resources[k].shared == b.resources[k].shared,
        a.provides.len() == b.provides.len(),
        forall|k: int|
            0 <= k < a.provides.len() ==> (#[trigger] a.provides[k]).ident == b.provides[k].ident,
        (a.source is Some) == (b.source is Some),
        (a.disabled is Some) == (b.disabled is Some),
        (a.slot_timeout is Some) == (b.slot_timeout is Some),
        a.slot_timeout is Some ==> a.slot_timeout->0.value == b.slot_timeout->0.value,
        (a.ack_timeout is Some) == (b.ack_timeout is Some),
        a.ack_timeout is Some ==> a.ack_timeout->0.value == b.ack_timeout->0.value,
        (a.beat_timeout is Some) == (b.beat_timeout is Some),
        a.beat_timeout is Some ==> a.beat_timeout->0.value == b.beat_timeout->0.value,
{
    the_model_of_a_node_has_every_clause(seq![x], 0, i, a);
    the_model_of_a_node_has_every_clause(seq![y], 0, j, b);
    let m = graph_models(seq![x])[0].items[i]->Node_0;
    assert forall|k: int| 0 <= k < a.reads.len() implies signal_name(#[trigger] a.reads[k]) == signal_name(
        b.reads[k],
    ) && a.reads[k].observed == b.reads[k].observed && a.reads[k].beat == b.reads[k].beat
        && a.reads[k].veto == b.reads[k].veto by {
        assert(tells_signal(m.reads[k], a.reads[k]));
        assert(tells_signal(m.reads[k], b.reads[k]));
    }
    assert forall|k: int| 0 <= k < a.writes.len() implies signal_name(#[trigger] a.writes[k]) == signal_name(
        b.writes[k],
    ) && a.writes[k].observed == b.writes[k].observed && a.writes[k].beat == b.writes[k].beat
        && a.writes[k].veto == b.writes[k].veto by {
        assert(tells_signal(m.writes[k], a.writes[k]));
        assert(tells_signal(m.writes[k], b.writes[k]));
    }
    assert forall|k: int| 0 <= k < a.deps.len() implies (#[trigger] a.deps[k]).ident == b.deps[k].ident
        && a.deps[k].ready == b.deps[k].ready && a.deps[k].bound == b.deps[k].bound by {
        assert(m.deps[k].name == b.deps[k].ident);
    }
    assert forall|k: int| 0 <= k < a.resources.len() implies (#[trigger] a.resources[k]).ident
        == b.resources[k].ident && a.resources[k].local == b.resources[k].local && a.resources[k].consume
        == b.resources[k].consume && a.resources[k].shared == b.resources[k].shared by {
        assert(m.resources[k].name == b.resources[k].ident);
    }
    assert forall|k: int| 0 <= k < a.provides.len() implies (#[trigger] a.provides[k]).ident
        == b.provides[k].ident by {
        assert(m.provides[k].name == b.provides[k].ident);
    }
}

/// An object has a field of this name with this value.
pub open spec fn has_field(j: JsonV, key: Seq<char>, value: JsonV) -> bool {
    j matches JsonV::Obj(v) && v.contains((key, value))
}

/// A number as JSON: its value, its text where it has none.
pub open spec fn shows_number(j: JsonV, key: Seq<char>, cfg_key: Seq<char>, g: Option<GatedV<IntLitV>>) -> bool {
    match g {
        Some(x) => has_field(
            j,
            key,
            match x.value.value {
                Some(n) => JsonV::Num(n),
                None => JsonV::Str(x.value.text),
            },
        ) && shows_texts(j, cfg_key, cfg_texts(x.cfg)),
        None => has_field(j, key, JsonV::Null) && shows_texts(j, cfg_key, Seq::empty()),
    }
}

/// A field has a list of texts.
pub open spec fn shows_texts(j: JsonV, key: Seq<char>, v: Seq<Seq<char>>) -> bool {
    exists|a: Seq<JsonV>| #[trigger]
        has_field(j, key, JsonV::Arr(a)) && a.len() == v.len() && forall|k: int|
            0 <= k < v.len() ==> a[k] == JsonV::Str(#[trigger] v[k])
}

/// A field has a text, or null.
pub open spec fn shows_text(j: JsonV, key: Seq<char>, t: Option<Seq<char>>) -> bool {
    has_field(
        j,
        key,
        match t {
            Some(x) => JsonV::Str(x),
            None => JsonV::Null,
        },
    )
}

/// A marker as JSON: whether it is there, and its predicates.
pub open spec fn shows_marker(j: JsonV, key: Seq<char>, cfg_key: Seq<char>, g: Option<GatedV<()>>) -> bool {
    has_field(j, key, JsonV::Bool(g is Some)) && shows_texts(
        j,
        cfg_key,
        match g {
            Some(x) => cfg_texts(x.cfg),
            None => Seq::empty(),
        },
    )
}

/// A field has a list of signals: of each entry, in order, its name, markers, accessor and predicates.
pub open spec fn shows_signals(j: JsonV, key: Seq<char>, s: Seq<SignalDeclV>) -> bool {
    exists|a: Seq<JsonV>| #[trigger]
        has_field(j, key, JsonV::Arr(a)) && a.len() == s.len() && forall|k: int|
            0 <= k < s.len() ==> shows_signal(a[k], #[trigger] s[k])
}

/// A signal entry as JSON.
pub open spec fn shows_signal(j: JsonV, s: SignalDeclV) -> bool {
    &&& has_field(j, "path"@, JsonV::Str(signal_name(s)))
    &&& has_field(j, "observed"@, JsonV::Bool(s.observed))
    &&& has_field(j, "beat"@, JsonV::Bool(s.beat))
    &&& has_field(j, "veto"@, JsonV::Bool(s.veto))
    &&& shows_texts(j, "cfg"@, cfg_texts(s.cfg))
    &&& match s.via {
        Some(e) => has_field(j, "via"@, JsonV::Str(e.text)),
        None => has_field(j, "via"@, JsonV::Null),
    }
}

/// A field has a list of deps.
pub open spec fn shows_deps(j: JsonV, key: Seq<char>, d: Seq<DepV>) -> bool {
    exists|a: Seq<JsonV>| #[trigger]
        has_field(j, key, JsonV::Arr(a)) && a.len() == d.len() && forall|k: int|
            0 <= k < d.len() ==> shows_dep(a[k], #[trigger] d[k])
}

/// A dep as JSON.
pub open spec fn shows_dep(j: JsonV, d: DepV) -> bool {
    &&& has_field(j, "name"@, JsonV::Str(d.ident))
    &&& has_field(j, "ready"@, JsonV::Bool(d.ready))
    &&& has_field(j, "bound"@, JsonV::Bool(d.bound))
    &&& shows_texts(j, "cfg"@, cfg_texts(d.cfg))
}

/// A field has a list of resources.
pub open spec fn shows_resources(j: JsonV, key: Seq<char>, r: Seq<ResourceDeclV>) -> bool {
    exists|a: Seq<JsonV>| #[trigger]
        has_field(j, key, JsonV::Arr(a)) && a.len() == r.len() && forall|k: int|
            0 <= k < r.len() ==> shows_resource(a[k], #[trigger] r[k])
}

/// A resource as JSON.
pub open spec fn shows_resource(j: JsonV, r: ResourceDeclV) -> bool {
    &&& has_field(j, "name"@, JsonV::Str(r.ident))
    &&& has_field(j, "local"@, JsonV::Bool(r.local))
    &&& has_field(j, "consume"@, JsonV::Bool(r.consume))
    &&& has_field(j, "shared"@, JsonV::Bool(r.shared))
    &&& has_field(j, "divisible"@, JsonV::Bool(r.divisible))
    &&& has_field(j, "serialized"@, JsonV::Bool(r.serialized))
    &&& shows_texts(j, "cfg"@, cfg_texts(r.cfg))
}

/// A field has a list of provided slots.
pub open spec fn shows_provides(j: JsonV, key: Seq<char>, p: Seq<ProvideDeclV>) -> bool {
    exists|a: Seq<JsonV>| #[trigger]
        has_field(j, key, JsonV::Arr(a)) && a.len() == p.len() && forall|k: int|
            0 <= k < p.len() ==> has_field(a[k], "name"@, JsonV::Str((#[trigger] p[k]).ident))
                && shows_texts(a[k], "cfg"@, cfg_texts(p[k].cfg))
}

/// A field has a task: by which clause it was given, and its tokens.
pub open spec fn shows_task(j: JsonV, key: Seq<char>, t: TaskSourceV) -> bool {
    exists|x: JsonV| #[trigger]
        has_field(j, key, x) && (match t {
            TaskSourceV::Spawn(e) => has_field(x, "kind"@, JsonV::Str("spawn"@)) && has_field(
                x,
                "path"@,
                JsonV::Str(e.text),
            ),
            TaskSourceV::Shell(e) => has_field(x, "kind"@, JsonV::Str("task"@)) && has_field(
                x,
                "path"@,
                JsonV::Str(e.text),
            ),
        })
}

/// A field has a `state:` clause, or null.
pub open spec fn shows_state(j: JsonV, key: Seq<char>, s: Option<StateDeclV>) -> bool {
    match s {
        Some(v) => exists|x: JsonV| #[trigger]
            has_field(j, key, x) && has_field(x, "ty"@, JsonV::Str(v.ty)) && has_field(
                x,
                "init"@,
                JsonV::Str(
                    match v.init {
                        StateInitV::Expr(e) => e.text,
                        StateInitV::Zeroed => "zeroed"@,
                    },
                ),
            ),
        None => has_field(j, key, JsonV::Null),
    }
}

/// A node as JSON: every clause of it, each under its own key.
pub open spec fn shows_node(j: JsonV, n: NodeItemV) -> bool {
    &&& has_field(j, "kind"@, JsonV::Str("node"@))
    &&& has_field(j, "name"@, JsonV::Str(n.ident))
    &&& has_field(j, "mode"@, JsonV::Str(n.mode))
    &&& shows_texts(j, "cfg"@, cfg_texts(n.cfg))
    &&& shows_deps(j, "deps"@, n.deps)
    &&& shows_text(j, "executor"@, n.executor)
    &&& has_field(j, "executor_defaulted"@, JsonV::Bool(n.executor_defaulted))
    &&& shows_resources(j, "resources"@, n.resources)
    &&& shows_provides(j, "provides"@, n.provides)
    &&& shows_marker(j, "discover"@, "discover_cfg"@, n.discover)
    &&& shows_texts(
        j,
        "dataflow"@,
        Seq::new(n.dataflow.len(), |k: int| joined(n.dataflow[k].path.segments, "::"@)),
    )
    &&& shows_signals(j, "reads"@, n.reads)
    &&& shows_signals(j, "writes"@, n.writes)
    &&& shows_marker(j, "disabled"@, "disabled_cfg"@, n.disabled)
    &&& has_field(j, "parked"@, JsonV::Bool(n.source is None))
    &&& match n.source {
        Some(t) => shows_task(j, "task"@, t),
        None => has_field(j, "task"@, JsonV::Null),
    }
    &&& has_field(
        j,
        "pool_size"@,
        match n.pool_size {
            Some(x) => match x.value {
                Some(v) => JsonV::Num(v),
                None => JsonV::Str(x.text),
            },
            None => JsonV::Null,
        },
    )
    &&& shows_number(j, "slot_timeout_ms"@, "slot_timeout_cfg"@, n.slot_timeout)
    &&& shows_number(j, "ack_timeout_ms"@, "ack_timeout_cfg"@, n.ack_timeout)
    &&& shows_number(j, "beat_timeout_ms"@, "beat_timeout_cfg"@, n.beat_timeout)
    &&& shows_number(j, "beat_window"@, "beat_window_cfg"@, n.beat_window)
    &&& shows_marker(j, "ready_on_write"@, "ready_on_write_cfg"@, n.ready_on_write)
    &&& shows_text(j, "exit"@, n.exit)
    &&& shows_state(j, "state"@, n.state)
    &&& has_field(j, "cancel"@, JsonV::Bool(n.cancel))
}

/// A pool as JSON: every clause of it, each under its own key.
pub open spec fn shows_pool(j: JsonV, p: PoolItemV) -> bool {
    &&& has_field(j, "kind"@, JsonV::Str("pool"@))
    &&& has_field(j, "name"@, JsonV::Str(p.ident))
    &&& shows_texts(j, "modes"@, p.modes)
    &&& shows_texts(j, "cfg"@, cfg_texts(p.cfg))
    &&& shows_deps(j, "deps"@, p.deps)
    &&& shows_text(j, "executor"@, p.executor)
    &&& has_field(j, "executor_defaulted"@, JsonV::Bool(p.executor_defaulted))
    &&& shows_resources(j, "resources"@, p.resources)
    &&& shows_marker(j, "discover"@, "discover_cfg"@, p.discover)
    &&& shows_texts(
        j,
        "dataflow"@,
        Seq::new(p.dataflow.len(), |k: int| joined(p.dataflow[k].path.segments, "::"@)),
    )
    &&& shows_signals(j, "reads"@, p.reads)
    &&& shows_signals(j, "writes"@, p.writes)
    &&& shows_task(j, "task"@, p.source)
    &&& has_field(j, "policy"@, JsonV::Str(p.policy.text))
    &&& shows_text(j, "policy_ty"@, p.policy_ty)
    &&& has_field(j, "min"@, JsonV::Str(p.min.text))
    &&& has_field(j, "max"@, JsonV::Str(p.max.text))
    &&& shows_number(j, "slot_timeout_ms"@, "slot_timeout_cfg"@, p.slot_timeout)
    &&& shows_number(j, "ack_timeout_ms"@, "ack_timeout_cfg"@, p.ack_timeout)
    &&& shows_state(j, "state"@, p.state)
    &&& has_field(j, "cancel"@, JsonV::Bool(p.cancel))
}

/// An item as JSON.
pub open spec fn shows_item(j: JsonV, item: ItemV) -> bool {
    match item {
        ItemV::Node(n) => shows_node(j, n),
        ItemV::Pool(p) => shows_pool(j, p),
        ItemV::Executor(x) => {
            &&& has_field(j, "kind"@, JsonV::Str("executor"@))
            &&& has_field(j, "name"@, JsonV::Str(x.ident))
            &&& has_field(j, "default"@, JsonV::Bool(x.default))
            &&& shows_texts(j, "cfg"@, cfg_texts(x.cfg))
        },
    }
}

/// A declaration as JSON: its macro, name, place and items.
pub open spec fn shows_graph(j: JsonV, d: DeclV) -> bool {
    &&& has_field(
        j,
        "macro"@,
        JsonV::Str(
            match d.kind {
                DeclKind::Graph => "supervisor_graph!"@,
                DeclKind::Fragment => "supervisor_fragment!"@,
                DeclKind::Compose => "compose_graph!"@,
            },
        ),
    )
    &&& shows_text(j, "name"@, d.spec.name)
    &&& has_field(j, "origin"@, JsonV::Str(d.origin))
    &&& has_field(j, "line"@, JsonV::Num(d.line as u64))
    &&& exists|a: Seq<JsonV>| #[trigger]
        has_field(j, "items"@, JsonV::Arr(a)) && a.len() == d.spec.items.len() && forall|k: int|
            0 <= k < a.len() ==> shows_item(a[k], #[trigger] d.spec.items[k])
}

/// A discovered access as JSON.
pub open spec fn shows_access(j: JsonV, d: DiscoveredV) -> bool {
    &&& has_field(j, "module"@, JsonV::Str(d.module))
    &&& has_field(j, "fn"@, JsonV::Str(d.access.func))
    &&& has_field(j, "verb"@, JsonV::Str(d.access.verb))
    &&& has_field(j, "write"@, JsonV::Bool(d.access.write))
    &&& has_field(j, "path"@, JsonV::Str(d.access.path))
    &&& shows_texts(j, "cfg"@, d.access.cfgs)
}

proof fn lemma_texts(j: JsonV, key: Seq<char>, v: Seq<Seq<char>>)
    requires
        has_field(j, key, strings(v)),
    ensures
        shows_texts(j, key, v),
{
    assert(strings(v) == JsonV::Arr(strings(v)->Arr_0));
}

proof fn lemma_number(j: JsonV, key: Seq<char>, cfg_key: Seq<char>, g: Option<GatedV<IntLitV>>)
    requires
        has_field(j, key, lit_json(lit_model(g))),
        has_field(j, cfg_key, lit_cfg(lit_model(g))),
    ensures
        shows_number(j, key, cfg_key, g),
{
    match g {
        Some(x) => lemma_texts(j, cfg_key, cfg_texts(x.cfg)),
        None => {
            assert(strings(Seq::empty())->Arr_0 == Seq::<JsonV>::empty());
            lemma_texts(j, cfg_key, Seq::empty());
        },
    }
}

proof fn lemma_marker(j: JsonV, key: Seq<char>, cfg_key: Seq<char>, g: Option<GatedV<()>>)
    requires
        has_field(j, key, JsonV::Bool(mark_model(g) is Some)),
        has_field(j, cfg_key, mark_cfg(mark_model(g))),
    ensures
        shows_marker(j, key, cfg_key, g),
{
    match g {
        Some(x) => lemma_texts(j, cfg_key, cfg_texts(x.cfg)),
        None => {
            assert(strings(Seq::empty())->Arr_0 == Seq::<JsonV>::empty());
            lemma_texts(j, cfg_key, Seq::empty());
        },
    }
}

proof fn lemma_signal(s: SignalDeclV)
    ensures
        shows_signal(signal_json(signal_model(s)), s),
{
    let j = signal_json(signal_model(s));
    let v = j->Obj_0;
    assert(v[0].0 == "path"@);
    assert(v[1].0 == "observed"@);
    assert(v[2].0 == "beat"@);
    assert(v[3].0 == "veto"@);
    assert(v[4].0 == "via"@);
    assert(v[5].0 == "cfg"@);
    lemma_texts(j, "cfg"@, cfg_texts(s.cfg));
}

proof fn lemma_signals(j: JsonV, key: Seq<char>, s: Seq<SignalDeclV>)
    requires
        has_field(j, key, signal_jsons(signal_models(s))),
    ensures
        shows_signals(j, key, s),
{
    let a = signal_jsons(signal_models(s))->Arr_0;
    assert(has_field(j, key, JsonV::Arr(a)));
    assert forall|k: int| 0 <= k < s.len() implies shows_signal(a[k], #[trigger] s[k]) by {
        lemma_signal(s[k]);
    }
}

proof fn lemma_deps(j: JsonV, key: Seq<char>, d: Seq<DepV>)
    requires
        has_field(j, key, dep_jsons(dep_models(d))),
    ensures
        shows_deps(j, key, d),
{
    let a = dep_jsons(dep_models(d))->Arr_0;
    assert(has_field(j, key, JsonV::Arr(a)));
    assert forall|k: int| 0 <= k < d.len() implies shows_dep(a[k], #[trigger] d[k]) by {
        let v = a[k]->Obj_0;
        assert(v[0].0 == "name"@);
        assert(v[1].0 == "ready"@);
        assert(v[2].0 == "bound"@);
        assert(v[3].0 == "cfg"@);
        lemma_texts(a[k], "cfg"@, cfg_texts(d[k].cfg));
    }
}

proof fn lemma_resources(j: JsonV, key: Seq<char>, r: Seq<ResourceDeclV>)
    requires
        has_field(j, key, resource_jsons(resource_models(r))),
    ensures
        shows_resources(j, key, r),
{
    let a = resource_jsons(resource_models(r))->Arr_0;
    assert(has_field(j, key, JsonV::Arr(a)));
    assert forall|k: int| 0 <= k < r.len() implies shows_resource(a[k], #[trigger] r[k]) by {
        let v = a[k]->Obj_0;
        assert(v[0].0 == "name"@);
        assert(v[1].0 == "local"@);
        assert(v[2].0 == "consume"@);
        assert(v[3].0 == "shared"@);
        assert(v[4].0 == "divisible"@);
        assert(v[5].0 == "serialized"@);
        assert(v[6].0 == "cfg"@);
        lemma_texts(a[k], "cfg"@, cfg_texts(r[k].cfg));
    }
}

proof fn lemma_provides(j: JsonV, key: Seq<char>, p: Seq<ProvideDeclV>)
    requires
        has_field(j, key, provide_jsons(provide_models(p))),
    ensures
        shows_provides(j, key, p),
{
    let a = provide_jsons(provide_models(p))->Arr_0;
    assert(has_field(j, key, JsonV::Arr(a)));
    assert forall|k: int| 0 <= k < p.len() implies has_field(
        a[k],
        "name"@,
        JsonV::Str((#[trigger] p[k]).ident),
    ) && shows_texts(a[k], "cfg"@, cfg_texts(p[k].cfg)) by {
        let v = a[k]->Obj_0;
        assert(v[0].0 == "name"@);
        assert(v[1].0 == "cfg"@);
        lemma_texts(a[k], "cfg"@, cfg_texts(p[k].cfg));
    }
}

proof fn lemma_task(j: JsonV, key: Seq<char>, t: TaskSourceV)
    requires
        has_field(j, key, task_json(task_model(t))),
    ensures
        shows_task(j, key, t),
{
    let x = task_json(task_model(t));
    let v = x->Obj_0;
    assert(v[0].0 == "kind"@);
    assert(v[1].0 == "path"@);
}

proof fn lemma_state(j: JsonV, key: Seq<char>, s: Option<StateDeclV>)
    requires
        has_field(j, key, state_json(state_model(s))),
    ensures
        shows_state(j, key, s),
{
    if s is Some {
        let v = state_json(state_model(s))->Obj_0;
        assert(v[0].0 == "ty"@);
        assert(v[1].0 == "init"@);
    }
}

proof fn lemma_node(n: NodeItemV)
    ensures
        shows_node(node_json(node_model(n)), n),
{
    let j = node_json(node_model(n));
    let v = j->Obj_0;
    assert(v[0].0 == "kind"@);
    assert(v[1].0 == "name"@);
    assert(v[2].0 == "mode"@);
    assert(v[3].0 == "cfg"@);
    assert(v[4].0 == "deps"@);
    assert(v[5].0 == "executor"@);
    assert(v[6].0 == "executor_defaulted"@);
    assert(v[7].0 == "resources"@);
    assert(v[8].0 == "provides"@);
    assert(v[9].0 == "discover"@);
    assert(v[10].0 == "discover_cfg"@);
    assert(v[11].0 == "dataflow"@);
    assert(v[12].0 == "reads"@);
    assert(v[13].0 == "writes"@);
    assert(v[14].0 == "disabled"@);
    assert(v[15].0 == "disabled_cfg"@);
    assert(v[16].0 == "parked"@);
    assert(v[17].0 == "task"@);
    assert(v[18].0 == "pool_size"@);
    assert(v[19].0 == "slot_timeout_ms"@);
    assert(v[20].0 == "slot_timeout_cfg"@);
    assert(v[21].0 == "ack_timeout_ms"@);
    assert(v[22].0 == "ack_timeout_cfg"@);
    assert(v[23].0 == "beat_timeout_ms"@);
    assert(v[24].0 == "beat_timeout_cfg"@);
    assert(v[25].0 == "beat_window"@);
    assert(v[26].0 == "beat_window_cfg"@);
    assert(v[27].0 == "ready_on_write"@);
    assert(v[28].0 == "ready_on_write_cfg"@);
    assert(v[29].0 == "exit"@);
    assert(v[30].0 == "state"@);
    assert(v[31].0 == "cancel"@);
    lemma_texts(j, "cfg"@, cfg_texts(n.cfg));
    lemma_deps(j, "deps"@, n.deps);
    lemma_resources(j, "resources"@, n.resources);
    lemma_provides(j, "provides"@, n.provides);
    lemma_marker(j, "discover"@, "discover_cfg"@, n.discover);
    let paths = Seq::new(n.dataflow.len(), |k: int| joined(n.dataflow[k].path.segments, "::"@));
    assert(adopted_paths(n.dataflow) == paths);
    lemma_texts(j, "dataflow"@, paths);
    lemma_signals(j, "reads"@, n.reads);
    lemma_signals(j, "writes"@, n.writes);
    lemma_marker(j, "disabled"@, "disabled_cfg"@, n.disabled);
    if let Some(t) = n.source {
        lemma_task(j, "task"@, t);
    }
    lemma_number(j, "slot_timeout_ms"@, "slot_timeout_cfg"@, n.slot_timeout);
    lemma_number(j, "ack_timeout_ms"@, "ack_timeout_cfg"@, n.ack_timeout);
    lemma_number(j, "beat_timeout_ms"@, "beat_timeout_cfg"@, n.beat_timeout);
    lemma_number(j, "beat_window"@, "beat_window_cfg"@, n.beat_window);
    lemma_marker(j, "ready_on_write"@, "ready_on_write_cfg"@, n.ready_on_write);
    lemma_state(j, "state"@, n.state);
}

proof fn lemma_pool(p: PoolItemV)
    ensures
        shows_pool(pool_json(pool_model(p)), p),
{
    let j = pool_json(pool_model(p));
    let v = j->Obj_0;
    assert(v[0].0 == "kind"@);
    assert(v[1].0 == "name"@);
    assert(v[2].0 == "modes"@);
    assert(v[3].0 == "cfg"@);
    assert(v[4].0 == "deps"@);
    assert(v[5].0 == "executor"@);
    assert(v[6].0 == "executor_defaulted"@);
    assert(v[7].0 == "resources"@);
    assert(v[8].0 == "discover"@);
    assert(v[9].0 == "discover_cfg"@);
    assert(v[10].0 == "dataflow"@);
    assert(v[11].0 == "reads"@);
    assert(v[12].0 == "writes"@);
    assert(v[13].0 == "task"@);
    assert(v[14].0 == "policy"@);
    assert(v[15].0 == "policy_ty"@);
    assert(v[16].0 == "min"@);
    assert(v[17].0 == "max"@);
    assert(v[18].0 == "slot_timeout_ms"@);
    assert(v[19].0 == "slot_timeout_cfg"@);
    assert(v[20].0 == "ack_timeout_ms"@);
    assert(v[21].0 == "ack_timeout_cfg"@);
    assert(v[22].0 == "state"@);
    assert(v[23].0 == "cancel"@);
    lemma_texts(j, "modes"@, p.modes);
    lemma_texts(j, "cfg"@, cfg_texts(p.cfg));
    lemma_deps(j, "deps"@, p.deps);
    lemma_resources(j, "resources"@, p.resources);
    lemma_marker(j, "discover"@, "discover_cfg"@, p.discover);
    let paths = Seq::new(p.dataflow.len(), |k: int| joined(p.dataflow[k].path.segments, "::"@));
    assert(adopted_paths(p.dataflow) == paths);
    lemma_texts(j, "dataflow"@, paths);
    lemma_signals(j, "reads"@, p.reads);
    lemma_signals(j, "writes"@, p.writes);
    lemma_task(j, "task"@, p.source);
    lemma_number(j, "slot_timeout_ms"@, "slot_timeout_cfg"@, p.slot_timeout);
    lemma_number(j, "ack_timeout_ms"@, "ack_timeout_cfg"@, p.ack_timeout);
    lemma_state(j, "state"@, p.state);
}

proof fn lemma_graph(d: DeclV)
    ensures
        shows_graph(graph_json(graph_model(d)), d),
{
    let j = graph_json(graph_model(d));
    let v = j->Obj_0;
    assert(v[0].0 == "macro"@);
    assert(v[1].0 == "name"@);
    assert(v[2].0 == "origin"@);
    assert(v[3].0 == "line"@);
    assert(v[4].0 == "items"@);
    let a = item_jsons(item_models(d.spec.items))->Arr_0;
    assert(has_field(j, "items"@, JsonV::Arr(a)));
    assert forall|k: int| 0 <= k < a.len() implies shows_item(a[k], #[trigger] d.spec.items[k]) by {
        assert(a[k] == item_json(item_model(d.spec.items[k])));
        match d.spec.items[k] {
            ItemV::Node(n) => lemma_node(n),
            ItemV::Pool(p) => lemma_pool(p),
            ItemV::Executor(x) => {
                let w = a[k]->Obj_0;
                assert(w[0].0 == "kind"@);
                assert(w[1].0 == "name"@);
                assert(w[2].0 == "default"@);
                assert(w[3].0 == "cfg"@);
                lemma_texts(a[k], "cfg"@, cfg_texts(x.cfg));
            },
        }
    }
}

/// The JSON has every declaration under `graphs`, in order, with every clause of every item under
/// its own key, and every discovered access under `discovered`, in order.
pub proof fn the_json_has_every_clause(decls: Seq<DeclV>, discovered: Seq<DiscoveredV>)
    ensures
        exists|g: Seq<JsonV>| #[trigger]
            has_field(JsonV::Obj(json_model(decls, discovered)), "graphs"@, JsonV::Arr(g)) && g.len()
                == decls.len() && forall|i: int|
                0 <= i < decls.len() ==> shows_graph(g[i], #[trigger] decls[i]),
        exists|a: Seq<JsonV>| #[trigger]
            has_field(JsonV::Obj(json_model(decls, discovered)), "discovered"@, JsonV::Arr(a)) && a.len()
                == discovered.len() && forall|i: int|
                0 <= i < discovered.len() ==> shows_access(a[i], #[trigger] discovered[i]),
{
    let j = JsonV::Obj(json_model(decls, discovered));
    let v = json_model(decls, discovered);
    assert(v[0].0 == "graphs"@);
    assert(v[1].0 == "discovered"@);
    let g = graph_jsons(graph_models(decls))->Arr_0;
    assert(has_field(j, "graphs"@, JsonV::Arr(g)));
    assert forall|i: int| 0 <= i < decls.len() implies shows_graph(g[i], #[trigger] decls[i]) by {
        lemma_graph(decls[i]);
    }
    let a = access_jsons(discovered)->Arr_0;
    assert(has_field(j, "discovered"@, JsonV::Arr(a)));
    assert forall|i: int| 0 <= i < discovered.len() implies shows_access(
        a[i],
        #[trigger] discovered[i],
    ) by {
        let w = a[i]->Obj_0;
        assert(w[0].0 == "module"@);
        assert(w[1].0 == "fn"@);
        assert(w[2].0 == "verb"@);
        assert(w[3].0 == "write"@);
        assert(w[4].0 == "path"@);
        assert(w[5].0 == "cfg"@);
        lemma_texts(a[i], "cfg"@, discovered[i].access.cfgs);
    }
}

} // verus!
