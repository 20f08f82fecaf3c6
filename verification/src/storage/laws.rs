//! What holds of a sound store, whatever is done to it.

use vstd::prelude::*;
use crate::storage::added;
use crate::storage::completed;
use crate::storage::created;
use crate::storage::ids;
use crate::storage::ids_below;
use crate::storage::initial;
use crate::storage::listing;
use crate::storage::removed;
use crate::storage::updated;
use crate::storage::valid;
use crate::storage::StoreView;
use crate::todo::TodoView;

verus! {

/// The store after one `add` for each of `messages`, in their order.
pub open spec fn added_all(state: StoreView, messages: Seq<Seq<char>>) -> StoreView
    decreases messages.len(),
{
    if messages.len() == 0 {
        state
    } else {
        added(added_all(state, messages.drop_last()), messages.last())
    }
}

/// After `add` for each of `messages` the counter has grown by their number,
/// the store is still valid, and it holds what it held before and the
/// identifiers above the old counter up to the new one.
pub proof fn lemma_added_all(state: StoreView, messages: Seq<Seq<char>>)
    requires
        valid(state),
        state.sequence + messages.len() <= u32::MAX,
    ensures
        added_all(state, messages).sequence == state.sequence + messages.len(),
        valid(added_all(state, messages)),
        forall|id: u32|
            #![trigger added_all(state, messages).mapping.contains_key(id)]
            added_all(state, messages).mapping.contains_key(id) <==> state.mapping.contains_key(id)
                || state.sequence < id <= state.sequence + messages.len(),
    decreases messages.len(),
{
    if messages.len() > 0 {
        lemma_added_all(state, messages.drop_last());
    }
}

/// Each `add` of a run gives the identifier that follows the one before: the
/// `k`-th of them, counted from zero, gives the old counter and `k + 1`. Until
/// then no task had that identifier, and at the end of the run the task
/// created under it is still there.
pub proof fn law_add_numbers_in_turn(state: StoreView, messages: Seq<Seq<char>>, k: int)
    requires
        valid(state),
        state.sequence + messages.len() <= u32::MAX,
        0 <= k < messages.len(),
    ensures
        ({
            let before = added_all(state, messages.take(k));
            let task = created(before, messages[k]);
            &&& task.id == state.sequence + k + 1
            &&& !before.mapping.contains_key(task.id)
            &&& added_all(state, messages).mapping.contains_key(task.id)
            &&& added_all(state, messages).mapping[task.id] == task
        }),
    decreases messages.len() - k,
{
    let before = added_all(state, messages.take(k));
    let task = created(before, messages[k]);
    lemma_added_all(state, messages.take(k));
    let upto = messages.take(k + 1);
    assert(upto.drop_last() =~= messages.take(k));
    assert(upto.last() == messages[k]);
    assert(added_all(state, upto) == added(before, messages[k]));
    lemma_added_later_keeps(state, messages, k + 1, task.id);
}

/// A task that is in the store after the first `n` of a run of `add` is
/// still there, unchanged, at the end of the run.
proof fn lemma_added_later_keeps(state: StoreView, messages: Seq<Seq<char>>, n: int, id: u32)
    requires
        valid(state),
        state.sequence + messages.len() <= u32::MAX,
        0 <= n <= messages.len(),
        added_all(state, messages.take(n)).mapping.contains_key(id),
    ensures
        added_all(state, messages).mapping.contains_key(id),
        added_all(state, messages).mapping[id] == added_all(state, messages.take(n)).mapping[id],
    decreases messages.len() - n,
{
    if n == messages.len() {
        assert(messages.take(n) =~= messages);
    } else {
        let upto = messages.take(n + 1);
        assert(upto.drop_last() =~= messages.take(n));
        lemma_added_all(state, messages.take(n));
        lemma_added_later_keeps(state, messages, n + 1, id);
    }
}

/// Of two `add` of a run, the later gives the larger identifier: no two
/// tasks are given the same.
pub proof fn law_later_add_gives_larger(
    state: StoreView,
    messages: Seq<Seq<char>>,
    j: int,
    k: int,
)
    requires
        valid(state),
        state.sequence + messages.len() <= u32::MAX,
        0 <= j < k < messages.len(),
    ensures
        created(added_all(state, messages.take(j)), messages[j]).id < created(
            added_all(state, messages.take(k)),
            messages[k],
        ).id,
{
    law_add_numbers_in_turn(state, messages, j);
    law_add_numbers_in_turn(state, messages, k);
}

/// In a store that starts empty, the `k`-th `add`, counted from zero, gives
/// the identifier `k + 1`: the first task is number 1.
pub proof fn law_first_identifier_is_one(messages: Seq<Seq<char>>, k: int)
    requires
        messages.len() <= u32::MAX,
        0 <= k < messages.len(),
    ensures
        created(added_all(initial(), messages.take(k)), messages[k]).id == k + 1,
{
    law_add_numbers_in_turn(initial(), messages, k);
}

/// An identifier that was deleted does not come back, however many tasks
/// are added afterwards.
pub proof fn law_deleted_identifier_stays_away(
    state: StoreView,
    id: u32,
    messages: Seq<Seq<char>>,
)
    requires
        valid(state),
        state.mapping.contains_key(id),
        state.sequence + messages.len() <= u32::MAX,
    ensures
        !added_all(removed(state, id), messages).mapping.contains_key(id),
{
    lemma_added_all(removed(state, id), messages);
}

/// `update`, `done` and `delete` of an identifier that the store does not
/// hold leave the store as it was.
pub proof fn law_absent_identifier_changes_nothing(state: StoreView, id: u32, message: Seq<char>)
    requires
        !state.mapping.contains_key(id),
    ensures
        updated(state, id, message) == state,
        completed(state, id) == state,
        removed(state, id) == state,
{
    assert(state.mapping.remove(id) =~= state.mapping);
}

/// A task that was marked as done is done, and marking it again changes
/// nothing.
pub proof fn law_done_twice_is_done_once(state: StoreView, id: u32)
    requires
        state.mapping.contains_key(id),
    ensures
        completed(state, id).mapping[id].done,
        completed(completed(state, id), id) == completed(state, id),
{
    assert(completed(completed(state, id), id).mapping =~= completed(state, id).mapping);
}

/// What `ids_below` holds: the identifiers of the map below the bound, each
/// smaller than the next.
pub proof fn lemma_ids_below(mapping: Map<u32, TodoView>, bound: nat)
    requires
        bound <= 0x1_0000_0000,
    ensures
        forall|id: u32|
            #![trigger ids_below(mapping, bound).contains(id)]
            #![trigger mapping.contains_key(id)]
            ids_below(mapping, bound).contains(id) <==> mapping.contains_key(id) && id < bound,
        forall|i: int, j: int|
            0 <= i < j < ids_below(mapping, bound).len() ==> ids_below(mapping, bound)[i]
                < ids_below(mapping, bound)[j],
    decreases bound,
{
    if bound > 0 {
        let lower = ids_below(mapping, (bound - 1) as nat);
        let top = (bound - 1) as u32;
        lemma_ids_below(mapping, (bound - 1) as nat);
        let all = ids_below(mapping, bound);
        if mapping.contains_key(top) {
            assert(all == lower.push(top));
            assert forall|id: u32| all.contains(id) <==> mapping.contains_key(id) && id
                < bound by {
                if all.contains(id) {
                    let at = choose|at: int| 0 <= at < all.len() && all[at] == id;
                    if at < lower.len() {
                        assert(lower[at] == id);
                        assert(lower.contains(id));
                    }
                }
                if mapping.contains_key(id) && id < bound {
                    if id == top {
                        assert(all[lower.len() as int] == id);
                    } else {
                        assert(lower.contains(id));
                        let at = choose|at: int| 0 <= at < lower.len() && lower[at] == id;
                        assert(all[at] == id);
                    }
                }
            }
            assert forall|i: int, j: int| 0 <= i < j < all.len() implies all[i] < all[j] by {
                if j == lower.len() {
                    assert(lower.contains(lower[i]));
                }
            }
        } else {
            assert forall|id: u32| all.contains(id) <==> mapping.contains_key(id) && id
                < bound by {
                if mapping.contains_key(id) && id < bound {
                    assert(id != top);
                }
            }
        }
    } else {
        assert forall|id: u32| !ids_below(mapping, bound).contains(id) by {}
    }
}

/// The listing holds each task of the store once, under its own identifier,
/// and in ascending order of the identifiers, whatever was added and deleted
/// before.
pub proof fn law_listing_is_ascending(state: StoreView)
    requires
        valid(state),
    ensures
        listing(state.mapping).len() == state.mapping.dom().len(),
        forall|i: int|
            0 <= i < listing(state.mapping).len() ==> state.mapping.contains_key(
                (#[trigger] listing(state.mapping)[i]).id,
            ) && state.mapping[listing(state.mapping)[i].id] == listing(state.mapping)[i],
        forall|id: u32|
            state.mapping.contains_key(id) ==> listing(state.mapping).contains(state.mapping[id]),
        forall|i: int, j: int|
            0 <= i < j < listing(state.mapping).len() ==> listing(state.mapping)[i].id < listing(
                state.mapping,
            )[j].id,
{
    let mapping = state.mapping;
    let all = ids(mapping);
    lemma_ids_below(mapping, 0x1_0000_0000);
    assert forall|i: int| 0 <= i < all.len() implies mapping.contains_key(#[trigger] all[i]) by {
        assert(all.contains(all[i]));
    }
    assert forall|id: u32| mapping.contains_key(id) implies listing(mapping).contains(
        mapping[id],
    ) by {
        assert(all.contains(id));
        let at = choose|at: int| 0 <= at < all.len() && all[at] == id;
        assert(listing(mapping)[at] == mapping[id]);
    }
    assert(all.no_duplicates());
    assert(all.to_set() =~= mapping.dom()) by {
        assert forall|id: u32| all.to_set().contains(id) <==> mapping.dom().contains(id) by {
            assert(all.to_set().contains(id) <==> all.contains(id));
        }
    }
    all.unique_seq_to_set();
}

} // verus!
