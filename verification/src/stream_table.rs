//! Tables from stream numbers to handles, kept in a `DashMap`.

use dashmap::DashMap;
use vstd::prelude::*;

verus! {

/// The concurrent map of `dashmap`.
#[verifier::external_type_specification]
#[verifier::external_body]
#[verifier::reject_recursive_types(K)]
#[verifier::reject_recursive_types(V)]
#[verifier::reject_recursive_types(S)]
pub struct ExDashMap<K, V, S>(dashmap::DashMap<K, V, S>);

/// A table from stream numbers to handles.
pub type StreamTable = DashMap<u64, u64>;

/// What a table holds.
pub uninterp spec fn entries(table: StreamTable) -> Map<u64, u64>;

/// Whether a list holds every entry of a map once, in whatever order.
pub open spec fn lists(list: Seq<(u64, u64)>, map: Map<u64, u64>) -> bool {
    &&& forall|i: int, j: int| 0 <= i < j < list.len() ==> list[i].0 != list[j].0
    &&& forall|i: int| 0 <= i < list.len() ==> map.contains_pair(list[i].0, list[i].1)
    &&& forall|key: u64|
        map.contains_key(key) ==> exists|i: int| 0 <= i < list.len() && list[i].0 == key
}

/// The number after `count` steps of a counter that goes round.
pub open spec fn counted(first: u64, count: nat) -> u64
    decreases count,
{
    if count == 0 {
        first
    } else {
        counted(first, (count - 1) as nat).wrapping_add(1)
    }
}

proof fn lemma_counted(first: u64, count: nat)
    ensures
        counted(first, count) as int == (first + count) % 0x1_0000_0000_0000_0000,
    decreases count,
{
    if count > 0 {
        lemma_counted(first, (count - 1) as nat);
    }
}

/// The numbers that a counter gives out differ, unless it has gone round between them.
pub proof fn law_counted_numbers_differ(first: u64, a: nat, b: nat)
    requires
        a < b < a + 0x1_0000_0000_0000_0000,
    ensures
        counted(first, a) != counted(first, b),
{
    lemma_counted(first, a);
    lemma_counted(first, b);
}

/// Calls `dashmap::DashMap::new`: the table is empty.
#[verifier::external_body]
pub(crate) fn new_table() -> (table: StreamTable)
    ensures
        (entries(table) == Map::<u64, u64>::empty()),
{
    DashMap::new()
}

/// Calls `dashmap::DashMap::insert`: `key` now maps to `handle`, and the handle that it
/// mapped to before is returned.
#[verifier::external_body]
pub(crate) fn insert(table: &mut StreamTable, key: u64, handle: u64) -> (previous: Option<u64>)
    ensures
        entries(*final(table)) == entries(*old(table)).insert(key, handle),
        previous == entries(*old(table)).get(key),
{
    table.insert(key, handle)
}

/// Calls `dashmap::DashMap::remove`: `key` is no longer mapped, and the handle that it
/// mapped to is returned.
#[verifier::external_body]
pub(crate) fn remove(table: &mut StreamTable, key: u64) -> (removed: Option<u64>)
    ensures
        entries(*final(table)) == entries(*old(table)).remove(key),
        removed == entries(*old(table)).get(key),
{
    table.remove(&key).map(|entry| entry.1)
}

/// Calls `dashmap::DashMap::remove_if` with the comparison to `handle` as the condition:
/// where `key` maps to `handle`, it is no longer mapped and `handle` is returned; else
/// nothing changes.
#[verifier::external_body]
pub(crate) fn remove_if_same(table: &mut StreamTable, key: u64, handle: u64) -> (removed: Option<
    u64,
>)
    ensures
        entries(*final(table)) == if entries(*old(table)).get(key) == Some(handle) {
            entries(*old(table)).remove(key)
        } else {
            entries(*old(table))
        },
        removed == if entries(*old(table)).get(key) == Some(handle) {
            Some(handle)
        } else {
            None
        },
{
    table.remove_if(&key, |_, current| same_handle(current, handle)).map(|entry| entry.1)
}

/// Calls `dashmap::DashMap::get`: the handle that `key` maps to.
#[verifier::external_body]
pub(crate) fn get(table: &StreamTable, key: u64) -> (found: Option<u64>)
    ensures
        found == entries(*table).get(key),
{
    table.get(&key).map(|entry| *entry.value())
}

/// Calls `dashmap::DashMap::iter` and takes the key of every entry: each key once, in an
/// order that is left open.
#[verifier::external_body]
pub(crate) fn keys(table: &StreamTable) -> (result: Vec<u64>)
    ensures
        result@.no_duplicates(),
        result@.to_set() == entries(*table).dom(),
{
    table.iter().map(|entry| *entry.key()).collect()
}

/// Whether the handle in a table is the given one.
fn same_handle(current: &u64, handle: u64) -> (result: bool)
    ensures
        result == (*current == handle),
{
    *current == handle
}

/// Empties a table and lists what it held.
pub fn drain(table: &mut StreamTable) -> (list: Vec<(u64, u64)>)
    ensures
        entries(*final(table)) == Map::<u64, u64>::empty(),
        lists(list@, entries(*old(table))),
{
    let pending = keys(table);
    let ghost before = entries(*table);
    let mut list: Vec<(u64, u64)> = Vec::new();
    let mut i: usize = 0;
    while i < pending.len()
        invariant
            i <= pending@.len(),
            before == entries(*old(table)),
            pending@.no_duplicates(),
            pending@.to_set() == before.dom(),
            list@.len() == i,
            forall|j: int|
                0 <= j < i ==> list@[j].0 == pending@[j] && before.contains_pair(
                    list@[j].0,
                    list@[j].1,
                ),
            forall|key: u64| #[trigger]
                entries(*table).contains_key(key) <==> exists|j: int|
                    i <= j < pending@.len() && pending@[j] == key,
            forall|key: u64|
                entries(*table).contains_key(key) ==> before.contains_pair(
                    key,
                    #[trigger] entries(*table)[key],
                ),
        decreases pending.len() - i,
    {
        let key: u64 = pending[i];
        let ghost current = entries(*table);
        assert(current.contains_key(key));
        match remove(table, key) {
            Some(handle) => {
                list.push((key, handle));
            },
            None => {},
        }
        proof {
            let rest = entries(*table);
            assert forall|k: u64| #[trigger] rest.contains_key(k) <==> exists|j: int|
                i + 1 <= j < pending@.len() && pending@[j] == k by {
                if rest.contains_key(k) {
                    assert(current.contains_key(k));
                    let j = choose|j: int| i <= j < pending@.len() && pending@[j] == k;
                    assert(j != i);
                }
                if exists|j: int| i + 1 <= j < pending@.len() && pending@[j] == k {
                    let j = choose|j: int| i + 1 <= j < pending@.len() && pending@[j] == k;
                    assert(pending@[j] != pending@[i as int]);
                    assert(current.contains_key(k));
                }
            }
        }
        i = i + 1;
    }
    proof {
        assert(entries(*table) =~= Map::<u64, u64>::empty());
        assert forall|a: int| 0 <= a < list@.len() implies before.contains_pair(
            list@[a].0,
            list@[a].1,
        ) by {
            assert(list@[a].0 == pending@[a]);
        }
        assert forall|a: int, b: int| 0 <= a < b < list@.len() implies list@[a].0 != list@[b].0 by {
            assert(pending@[a] != pending@[b]);
        }
        assert forall|key: u64| before.contains_key(key) implies exists|j: int|
            0 <= j < list@.len() && list@[j].0 == key by {
            assert(pending@.to_set().contains(key));
            let j = pending@.index_of(key);
            assert(list@[j].0 == key);
        }
    }
    list
}

/// Emptying a table lists each of its entries once and nothing else.
pub proof fn law_drained(table: &mut StreamTable, list: Vec<(u64, u64)>, key: u64, handle: u64)
    requires
        call_ensures(drain, (table,), list),
    ensures
        list@.contains((key, handle)) <==> entries(*old(table)).get(key) == Some(handle),
        list@.no_duplicates(),
        !entries(*final(table)).contains_key(key),
{
    lemma_lists(list@, entries(*old(table)), key, handle);
}

/// What is listed of a map: each entry once and nothing else.
pub proof fn lemma_lists(list: Seq<(u64, u64)>, map: Map<u64, u64>, key: u64, handle: u64)
    requires
        lists(list, map),
    ensures
        list.contains((key, handle)) <==> map.get(key) == Some(handle),
        list.no_duplicates(),
{
    if map.contains_key(key) {
        let i = choose|i: int| 0 <= i < list.len() && list[i].0 == key;
        assert(map.contains_pair(list[i].0, list[i].1));
        assert(list[i] == (key, map[key]));
    }
    if list.contains((key, handle)) {
        let i = list.index_of((key, handle));
        assert(map.contains_pair(list[i].0, list[i].1));
    }
}

} // verus!
