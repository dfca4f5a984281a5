//! The table of tasks in memory, a concurrent map keyed by the identifier of the task.
use crate::models::task::{Task, TaskView};
use dashmap::DashMap;
use vstd::prelude::*;

verus! {

/// `DashMap` of the `dashmap` crate.
#[verifier::external_type_specification]
#[verifier::external_body]
#[verifier::reject_recursive_types(K)]
#[verifier::reject_recursive_types(V)]
#[verifier::reject_recursive_types(S)]
pub struct ExDashMap<K, V, S>(DashMap<K, V, S>);

/// The tasks that a table holds.
pub uninterp spec fn table_items(t: DashMap<u128, Task>) -> Map<u128, TaskView>;

/// `DashMap::new` makes a map without entries.
#[verifier::external_body]
pub(crate) fn new_table() -> (r: DashMap<u128, Task>)
    ensures
        table_items(r) =~= Map::empty(),
{
    DashMap::new()
}

/// `DashMap::insert` stores the value under the key, in place of one that was there.
#[verifier::external_body]
pub(crate) fn put_task(t: &mut DashMap<u128, Task>, id: u128, task: Task)
    ensures
        table_items(*final(t)) == table_items(*old(t)).insert(id, task@),
{
    t.insert(id, task);
}

/// `DashMap::view` applies a function to the value under the key, where there is one. Here the
/// function copies the task.
#[verifier::external_body]
pub(crate) fn get_task(t: &DashMap<u128, Task>, id: u128) -> (r: Option<Task>)
    ensures
        match r {
            Some(task) => table_items(*t).contains_key(id) && task@ == table_items(*t)[id],
            None => !table_items(*t).contains_key(id),
        },
{
    t.view(&id, |_id, task| task.duplicate())
}

/// `DashMap::remove` takes the key and its value out of the map.
#[verifier::external_body]
pub(crate) fn drop_task(t: &mut DashMap<u128, Task>, id: u128)
    ensures
        table_items(*final(t)) == table_items(*old(t)).remove(id),
{
    t.remove(&id);
}

/// `DashMap::iter` visits every entry once. Nothing is said of the order.
#[verifier::external_body]
pub(crate) fn task_ids(t: &DashMap<u128, Task>) -> (r: Vec<u128>)
    ensures
        r@.no_duplicates(),
        r@.to_set() =~= table_items(*t).dom(),
{
    t.iter().map(|entry| *entry.key()).collect()
}

} // verus!
