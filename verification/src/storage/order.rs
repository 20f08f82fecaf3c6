//! Why the tasks of a store come out in ascending order of their
//! identifiers.

use std::collections::BTreeMap;
use vstd::prelude::*;
use vstd::std_specs::btree::increasing_seq;
use vstd::std_specs::cmp::OrdSpec;
use vstd::std_specs::iter::IteratorSpec;
use crate::storage::ids;
use crate::storage::ids_below;
use crate::storage::tasks;
use crate::todo::Todo;
use crate::todo::TodoView;

verus! {

broadcast use vstd::std_specs::btree::group_btree_axioms;

/// Each identifier is smaller than the next.
pub open spec fn ascending(ids: Seq<u32>) -> bool {
    forall|i: int, j: int| 0 <= i < j < ids.len() ==> ids[i] < ids[j]
}

/// `ids` holds the identifiers of `mapping` that are below `bound`, and no
/// other.
pub open spec fn holds_ids_below(ids: Seq<u32>, mapping: Map<u32, TodoView>, bound: nat) -> bool {
    forall|id: u32| ids.contains(id) <==> mapping.contains_key(id) && id < bound
}

/// The order that the standard library keeps among the keys of a map is the
/// order of the numbers.
pub proof fn lemma_increasing_is_ascending(ids: Seq<u32>)
    requires
        increasing_seq(ids),
    ensures
        ascending(ids),
{
    broadcast use vstd::laws_cmp::group_laws_cmp;

    vstd::std_specs::btree::axiom_increasing_seq_meaning::<u32>(ids);
    assert(forall|i: int, j: int|
        0 <= i < j < ids.len() ==> (#[trigger] OrdSpec::cmp_spec(&ids[i], &ids[j])) is Less);
    assert forall|i: int, j: int| 0 <= i < j < ids.len() implies ids[i] < ids[j] by {
        assert(OrdSpec::cmp_spec(&ids[i], &ids[j]) is Less);
    }
}

/// There is one way to put the identifiers of a map in ascending order.
pub proof fn lemma_ascending_is_ids_below(ids: Seq<u32>, mapping: Map<u32, TodoView>, bound: nat)
    requires
        ascending(ids),
        holds_ids_below(ids, mapping, bound),
        bound <= 0x1_0000_0000,
    ensures
        ids == ids_below(mapping, bound),
    decreases bound,
{
    if bound == 0 {
        if ids.len() > 0 {
            assert(ids.contains(ids[0]));
        }
        assert(ids =~= Seq::empty());
    } else {
        let top = (bound - 1) as nat;
        if mapping.contains_key(top as u32) {
            let id = top as u32;
            assert(ids.contains(id));
            let at = choose|at: int| 0 <= at < ids.len() && ids[at] == id;
            if at < ids.len() - 1 {
                assert(ids.contains(ids[at + 1]));
            }
            let lower = ids.drop_last();
            assert forall|other: u32| lower.contains(other) <==> mapping.contains_key(other)
                && other < top by {
                if lower.contains(other) {
                    let k = choose|k: int| 0 <= k < lower.len() && lower[k] == other;
                    assert(ids[k] == other);
                    assert(ids.contains(other));
                }
                if mapping.contains_key(other) && other < top {
                    assert(ids.contains(other));
                    let k = choose|k: int| 0 <= k < ids.len() && ids[k] == other;
                    assert(lower[k] == other);
                }
            }
            lemma_ascending_is_ids_below(lower, mapping, top);
            assert(ids =~= lower.push(id));
        } else {
            assert forall|other: u32| ids.contains(other) <==> mapping.contains_key(other)
                && other < top by {
                if mapping.contains_key(other) && other < bound {
                    assert(other != top);
                }
            }
            lemma_ascending_is_ids_below(ids, mapping, top);
        }
    }
}

/// The keys of a map, in the order in which the map hands them out, are its
/// identifiers in ascending order.
pub proof fn lemma_keys_are_ids(keys: Seq<u32>, todo_list: Map<u32, Todo>)
    requires
        increasing_seq(keys),
        keys.to_set() == todo_list.dom(),
    ensures
        keys == ids(tasks(todo_list)),
{
    lemma_increasing_is_ascending(keys);
    assert forall|id: u32| keys.contains(id) <==> tasks(todo_list).contains_key(id) by {
        assert(keys.contains(id) <==> keys.to_set().contains(id));
    }
    lemma_ascending_is_ids_below(keys, tasks(todo_list), 0x1_0000_0000);
}

/// The pairs that a map hands out hold its identifiers in ascending order,
/// each with its task.
pub proof fn lemma_pairs_are_ids(pairs: Seq<(&u32, &Todo)>, todo_list: &BTreeMap<u32, Todo>)
    requires
        pairs == todo_list.iter().remaining(),
        increasing_seq(pairs.map_values(|kv: (&u32, &Todo)| *kv.0)),
    ensures
        pairs.len() == ids(tasks(todo_list@)).len(),
        forall|i: int|
            0 <= i < pairs.len() ==> *(#[trigger] pairs[i]).0 == ids(tasks(todo_list@))[i]
                && todo_list@.contains_key(*pairs[i].0) && todo_list@[*pairs[i].0] == *pairs[i].1,
{
    let keys = pairs.map_values(|kv: (&u32, &Todo)| *kv.0);
    assert forall|id: u32| keys.to_set().contains(id) <==> todo_list@.dom().contains(id) by {
        if keys.contains(id) {
            let at = choose|at: int| 0 <= at < keys.len() && keys[at] == id;
            assert(todo_list@.contains_key(*pairs[at].0));
        }
        if todo_list@.contains_key(id) {
            assert(pairs.contains((&id, &todo_list@[id])));
            let at = choose|at: int| 0 <= at < pairs.len() && pairs[at] == (&id, &todo_list@[id]);
            assert(keys[at] == id);
        }
    }
    assert(keys.to_set() =~= todo_list@.dom());
    lemma_keys_are_ids(keys, todo_list@);
    assert forall|i: int| 0 <= i < pairs.len() implies *(#[trigger] pairs[i]).0 == ids(
        tasks(todo_list@),
    )[i] && todo_list@.contains_key(*pairs[i].0) && todo_list@[*pairs[i].0] == *pairs[i].1 by {
        assert(keys[i] == *pairs[i].0);
    }
}

} // verus!
