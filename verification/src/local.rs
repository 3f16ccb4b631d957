//! Local resource slots, which carry values that must not leave the executor they were built on.

use vstd::prelude::*;

use crate::ast::{resources_of, Item, ItemV, ProvideDecl, ProvideDeclV, ResourceDecl, ResourceDeclV};
use crate::lists::complaint;
use crate::parse::Fault;
use crate::render::executor_of;
use crate::text::{cat3, same};

verus! {

/// A resource of this name is in the list.
pub open spec fn takes_slot(list: Seq<ResourceDeclV>, slot: Seq<char>) -> bool {
    exists|k: int| 0 <= k < list.len() && (#[trigger] list[k]).ident == slot
}

/// A slot of this name is in the list.
pub open spec fn fills_slot(list: Seq<ProvideDeclV>, slot: Seq<char>) -> bool {
    exists|k: int| 0 <= k < list.len() && (#[trigger] list[k]).ident == slot
}

/// The item takes or provides the slot.
pub open spec fn declares_slot(item: ItemV, slot: Seq<char>) -> bool {
    takes_slot(resources_of(item), slot) || (item matches ItemV::Node(n) && fills_slot(
        n.provides,
        slot,
    ))
}

/// Some item declares the slot on another executor than this.
pub open spec fn strays(items: Seq<ItemV>, executor: Option<Seq<char>>, slot: Seq<char>) -> bool {
    exists|j: int|
        0 <= j < items.len() && declares_slot(#[trigger] items[j], slot) && executor_of(items[j])
            != executor
}

pub const LOCAL_STRAYS: &'static str = "` is declared on more than one executor — a local slot exists to carry `!Send` values, so every declaration of it, its provider included, must run on the same executor";

/// What is wrong with the first local resource of the list, from number `k` on, that strays from
/// the executor.
pub open spec fn slots_fault(
    items: Seq<ItemV>,
    executor: Option<Seq<char>>,
    list: Seq<ResourceDeclV>,
    k: int,
) -> Option<Fault>
    decreases list.len() - k,
{
    if k < 0 || k >= list.len() {
        None
    } else if list[k].local && strays(items, executor, list[k].ident) {
        Some("`local` resource `"@ + list[k].ident + LOCAL_STRAYS@)
    } else {
        slots_fault(items, executor, list, k + 1)
    }
}

/// What is wrong with the local slots of the items from number `i` on.
pub open spec fn local_fault(items: Seq<ItemV>, i: int) -> Option<Fault>
    decreases items.len() - i,
{
    if i < 0 || i >= items.len() {
        None
    } else {
        match slots_fault(items, executor_of(items[i]), resources_of(items[i]), 0) {
            Some(m) => Some(m),
            None => local_fault(items, i + 1),
        }
    }
}

fn has_resource(list: &Vec<ResourceDecl>, slot: &str) -> (r: bool)
    ensures
        r == takes_slot(list.deep_view(), slot@),
{
    let ghost l = list.deep_view();
    let mut k: usize = 0;
    while k < list.len()
        invariant
            k <= list@.len(),
            l == list.deep_view(),
            forall|m: int| 0 <= m < k ==> (#[trigger] l[m]).ident != slot@,
        decreases list@.len() - k,
    {
        assert(l[k as int].ident == list@[k as int].ident@);
        if same(list[k].ident.as_str(), slot) {
            return true;
        }
        k = k + 1;
    }
    false
}

fn has_provided(list: &Vec<ProvideDecl>, slot: &str) -> (r: bool)
    ensures
        r == fills_slot(list.deep_view(), slot@),
{
    let ghost l = list.deep_view();
    let mut k: usize = 0;
    while k < list.len()
        invariant
            k <= list@.len(),
            l == list.deep_view(),
            forall|m: int| 0 <= m < k ==> (#[trigger] l[m]).ident != slot@,
        decreases list@.len() - k,
    {
        assert(l[k as int].ident == list@[k as int].ident@);
        if same(list[k].ident.as_str(), slot) {
            return true;
        }
        k = k + 1;
    }
    false
}

fn does_declare(item: &Item, slot: &str) -> (r: bool)
    ensures
        r == declares_slot(item.deep_view(), slot@),
{
    match item {
        Item::Node(n) => has_resource(&n.resources, slot) || has_provided(&n.provides, slot),
        Item::Pool(p) => has_resource(&p.resources, slot),
        Item::Executor(_) => false,
    }
}

fn same_executor(a: &Option<String>, b: &Option<String>) -> (r: bool)
    ensures
        r == (a.deep_view() == b.deep_view()),
{
    match (a, b) {
        (Some(x), Some(y)) => same(x.as_str(), y.as_str()),
        (None, None) => true,
        _ => false,
    }
}

fn runs_on(item: &Item, executor: &Option<String>) -> (r: bool)
    ensures
        r == (executor_of(item.deep_view()) == executor.deep_view()),
{
    match item {
        Item::Node(n) => same_executor(&n.executor, executor),
        Item::Pool(p) => same_executor(&p.executor, executor),
        Item::Executor(_) => executor.is_none(),
    }
}

fn does_stray(items: &Vec<Item>, executor: &Option<String>, slot: &str) -> (r: bool)
    ensures
        r == strays(items.deep_view(), executor.deep_view(), slot@),
{
    let ghost all = items.deep_view();
    let mut j: usize = 0;
    while j < items.len()
        invariant
            j <= items@.len(),
            all == items.deep_view(),
            forall|m: int|
                0 <= m < j && declares_slot(#[trigger] all[m], slot@) ==> executor_of(all[m])
                    == executor.deep_view(),
        decreases items@.len() - j,
    {
        assert(all[j as int] == items@[j as int].deep_view());
        if does_declare(&items[j], slot) && !runs_on(&items[j], executor) {
            return true;
        }
        j = j + 1;
    }
    false
}

fn check_slots(items: &Vec<Item>, executor: &Option<String>, list: &Vec<ResourceDecl>) -> (r: Result<
    (),
    String,
>)
    ensures
        complaint(r) == slots_fault(items.deep_view(), executor.deep_view(), list.deep_view(), 0),
{
    let ghost all = items.deep_view();
    let ghost l = list.deep_view();
    let mut k: usize = 0;
    while k < list.len()
        invariant
            k <= list@.len(),
            all == items.deep_view(),
            l == list.deep_view(),
            slots_fault(all, executor.deep_view(), l, 0) == slots_fault(
                all,
                executor.deep_view(),
                l,
                k as int,
            ),
        decreases list@.len() - k,
    {
        assert(l[k as int] == list@[k as int].deep_view());
        if list[k].local && does_stray(items, executor, list[k].ident.as_str()) {
            return Err(cat3("`local` resource `", list[k].ident.as_str(), LOCAL_STRAYS));
        }
        k = k + 1;
    }
    Ok(())
}

/// Checks that every local slot keeps to one executor.
pub fn check_local(items: &Vec<Item>) -> (r: Result<(), String>)
    ensures
        complaint(r) == local_fault(items.deep_view(), 0),
{
    let ghost all = items.deep_view();
    let mut i: usize = 0;
    while i < items.len()
        invariant
            i <= items@.len(),
            all == items.deep_view(),
            local_fault(all, 0) == local_fault(all, i as int),
        decreases items@.len() - i,
    {
        assert(all[i as int] == items@[i as int].deep_view());
        match &items[i] {
            Item::Node(n) => check_slots(items, &n.executor, &n.resources)?,
            Item::Pool(p) => check_slots(items, &p.executor, &p.resources)?,
            Item::Executor(_) => {},
        }
        i = i + 1;
    }
    Ok(())
}

proof fn lemma_slots(
    items: Seq<ItemV>,
    executor: Option<Seq<char>>,
    list: Seq<ResourceDeclV>,
    k: int,
    m: int,
)
    requires
        0 <= k <= m < list.len(),
        list[m].local,
        slots_fault(items, executor, list, k) is None,
    ensures
        !strays(items, executor, list[m].ident),
    decreases m - k,
{
    if k < m {
        lemma_slots(items, executor, list, k + 1, m);
    }
}

proof fn lemma_items(items: Seq<ItemV>, i: int, j: int)
    requires
        0 <= i <= j < items.len(),
        local_fault(items, i) is None,
    ensures
        slots_fault(items, executor_of(items[j]), resources_of(items[j]), 0) is None,
    decreases j - i,
{
    if i < j {
        lemma_items(items, i + 1, j);
    }
}

/// Where nothing is wrong with the local slots, whatever takes or provides one runs on the executor
/// of the item that declares it `local`.
pub proof fn a_local_slot_keeps_to_one_executor(items: Seq<ItemV>, i: int, m: int, j: int)
    requires
        local_fault(items, 0) is None,
        0 <= i < items.len(),
        0 <= m < resources_of(items[i]).len(),
        resources_of(items[i])[m].local,
        0 <= j < items.len(),
        declares_slot(items[j], resources_of(items[i])[m].ident),
    ensures
        executor_of(items[j]) == executor_of(items[i]),
{
    lemma_items(items, 0, i);
    lemma_slots(items, executor_of(items[i]), resources_of(items[i]), 0, m);
}

} // verus!
