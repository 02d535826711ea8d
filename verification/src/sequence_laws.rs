//! What holds of a keyed sequence whose slots do not collide.
//!
//! The slots are hashed keys, and a digest may map two logical keys to one
//! hashed key. The laws below speak of the sequences on which that does not
//! happen, see [`slots_apart`].

use vstd::prelude::*;
use crate::codec::Storable;
use crate::storage::is_child_storage_key;
use crate::storage_vec::{
    after_clear_item, after_push, after_set_count, after_set_item, after_set_items, counter_slot,
    filled, is_vacated, item_slot, spec_count, spec_item, spec_items,
};

verus! {

/// The counter slot and the slots of the items below `n` are pairwise
/// distinct hashed keys, and none of them lies in the reserved range of the
/// raw store.
pub open spec fn slots_apart(prefix: Seq<u8>, n: nat) -> bool {
    &&& !is_child_storage_key(counter_slot(prefix))
    &&& forall|i: u32| i < n ==> !is_child_storage_key(#[trigger] item_slot(prefix, i))
    &&& forall|i: u32| i < n ==> #[trigger] item_slot(prefix, i) != counter_slot(prefix)
    &&& forall|i: u32, j: u32|
        i < n && j < n && i != j ==> #[trigger] item_slot(prefix, i) != #[trigger] item_slot(
            prefix,
            j,
        )
}

/// Slots that are apart up to `n` are apart up to any smaller bound.
pub proof fn lemma_slots_apart_below(prefix: Seq<u8>, n: nat, k: nat)
    requires
        slots_apart(prefix, n),
        k <= n,
    ensures
        slots_apart(prefix, k),
{
}

/// A push appends: the count grows by one and the items are the old items
/// followed by the pushed value.
pub proof fn lemma_push_appends<T: Storable>(m: Map<Seq<u8>, Seq<u8>>, prefix: Seq<u8>, v: T::V)
    requires
        T::encodable(v),
        spec_count(m, prefix) < u32::MAX,
        slots_apart(prefix, spec_count(m, prefix) as nat + 1),
    ensures
        spec_count(after_push::<T>(m, prefix, v), prefix) == spec_count(m, prefix) + 1,
        spec_items::<T>(after_push::<T>(m, prefix, v), prefix) == spec_items::<T>(m, prefix).push(
            v,
        ),
{
    let c = spec_count(m, prefix);
    let next = (c + 1) as u32;
    let pushed = after_push::<T>(m, prefix, v);
    assert(!is_child_storage_key(item_slot(prefix, c)));
    u32::lemma_round_trip(next);
    T::lemma_round_trip(v);
    assert forall|j: int| 0 <= j < next implies spec_item::<T>(pushed, prefix, j as u32)
        == spec_items::<T>(m, prefix).push(v)[j] by {
        assert(item_slot(prefix, j as u32) != counter_slot(prefix));
    }
}

/// Setting the count to `n`, at most the old count, trims: the count is `n`,
/// the items are the first `n` of the old items, and every item from `n` up
/// to the old count reads as the default, its slot being empty.
pub proof fn lemma_set_count_trims<T: Storable>(m: Map<Seq<u8>, Seq<u8>>, prefix: Seq<u8>, n: u32)
    requires
        n <= spec_count(m, prefix),
        slots_apart(prefix, spec_count(m, prefix) as nat),
    ensures
        spec_count(after_set_count(m, prefix, n), prefix) == n,
        spec_items::<T>(after_set_count(m, prefix, n), prefix) == spec_items::<T>(m, prefix).take(
            n as int,
        ),
        forall|i: u32|
            n <= i < spec_count(m, prefix) ==> #[trigger] spec_item::<T>(
                after_set_count(m, prefix, n),
                prefix,
                i,
            ) == T::spec_default(),
        forall|i: u32|
            n <= i < spec_count(m, prefix) ==> !after_set_count(m, prefix, n).contains_key(
                #[trigger] item_slot(prefix, i),
            ),
{
    let c = spec_count(m, prefix);
    let trimmed = after_set_count(m, prefix, n);
    u32::lemma_round_trip(n);
    assert forall|j: int| 0 <= j < n implies spec_item::<T>(trimmed, prefix, j as u32)
        == spec_items::<T>(m, prefix).take(n as int)[j] by {
        // A kept item shares its slot with no vacated one.
        assert(!is_vacated(prefix, n, c, item_slot(prefix, j as u32)));
    }
    assert forall|i: u32| n <= i < c implies #[trigger] spec_item::<T>(trimmed, prefix, i)
        == T::spec_default() && !trimmed.contains_key(item_slot(prefix, i)) by {
        assert(is_vacated(prefix, n, c, item_slot(prefix, i)));
        assert(item_slot(prefix, i) != counter_slot(prefix));
    }
}

/// Setting the count to `n`, at least the old count, only moves the
/// counter: the count is `n` and every item reads as it did before.
pub proof fn lemma_set_count_grows<T: Storable>(m: Map<Seq<u8>, Seq<u8>>, prefix: Seq<u8>, n: u32)
    requires
        spec_count(m, prefix) <= n,
        slots_apart(prefix, n as nat),
    ensures
        spec_count(after_set_count(m, prefix, n), prefix) == n,
        forall|i: u32|
            i < n ==> #[trigger] spec_item::<T>(after_set_count(m, prefix, n), prefix, i)
                == spec_item::<T>(m, prefix, i),
{
    let grown = after_set_count(m, prefix, n);
    u32::lemma_round_trip(n);
    assert forall|i: u32| i < n implies #[trigger] spec_item::<T>(grown, prefix, i)
        == spec_item::<T>(m, prefix, i) by {
        assert(item_slot(prefix, i) != counter_slot(prefix));
    }
}

/// Setting an item at an index that is not below the count changes nothing:
/// the pairs, and with them the count and the items, stay as they were.
pub proof fn lemma_set_item_out_of_range<T: Storable>(
    m: Map<Seq<u8>, Seq<u8>>,
    prefix: Seq<u8>,
    index: u32,
    v: T::V,
)
    requires
        index >= spec_count(m, prefix),
    ensures
        after_set_item::<T>(m, prefix, index, v) == m,
        spec_count(after_set_item::<T>(m, prefix, index, v), prefix) == spec_count(m, prefix),
        spec_items::<T>(after_set_item::<T>(m, prefix, index, v), prefix) == spec_items::<T>(
            m,
            prefix,
        ),
{
}

/// Setting an item at an index below the count replaces that item and
/// leaves the count and the other items as they were.
pub proof fn lemma_set_item_in_range<T: Storable>(
    m: Map<Seq<u8>, Seq<u8>>,
    prefix: Seq<u8>,
    index: u32,
    v: T::V,
)
    requires
        T::encodable(v),
        index < spec_count(m, prefix),
        slots_apart(prefix, spec_count(m, prefix) as nat),
    ensures
        spec_count(after_set_item::<T>(m, prefix, index, v), prefix) == spec_count(m, prefix),
        spec_items::<T>(after_set_item::<T>(m, prefix, index, v), prefix) == spec_items::<T>(
            m,
            prefix,
        ).update(index as int, v),
{
    let c = spec_count(m, prefix);
    let set = after_set_item::<T>(m, prefix, index, v);
    assert(!is_child_storage_key(item_slot(prefix, index)));
    T::lemma_round_trip(v);
    assert forall|j: int| 0 <= j < c implies spec_item::<T>(set, prefix, j as u32)
        == spec_items::<T>(m, prefix).update(index as int, v)[j] by {
        if j != index {
            assert(item_slot(prefix, j as u32) != item_slot(prefix, index));
        }
    }
}

/// Clearing an item at an index below the count makes that item read as the
/// default and leaves the count and the other items as they were; at any
/// other index it changes nothing.
pub proof fn lemma_clear_item<T: Storable>(m: Map<Seq<u8>, Seq<u8>>, prefix: Seq<u8>, index: u32)
    requires
        slots_apart(prefix, spec_count(m, prefix) as nat),
    ensures
        index >= spec_count(m, prefix) ==> after_clear_item(m, prefix, index) == m,
        spec_count(after_clear_item(m, prefix, index), prefix) == spec_count(m, prefix),
        index < spec_count(m, prefix) ==> spec_items::<T>(
            after_clear_item(m, prefix, index),
            prefix,
        ) == spec_items::<T>(m, prefix).update(index as int, T::spec_default()),
{
    let c = spec_count(m, prefix);
    let cleared = after_clear_item(m, prefix, index);
    if index < c {
        assert(item_slot(prefix, index) != counter_slot(prefix));
        assert forall|j: int| 0 <= j < c implies spec_item::<T>(cleared, prefix, j as u32)
            == spec_items::<T>(m, prefix).update(index as int, T::spec_default())[j] by {
            if j != index {
                assert(item_slot(prefix, j as u32) != item_slot(prefix, index));
            }
        }
    }
}

/// What writing the first `k` values leaves: the count is untouched, the
/// items below `k` read as the values, and every hashed key that is not the
/// slot of an item below `k` holds what it held.
proof fn lemma_filled<T: Storable>(
    m: Map<Seq<u8>, Seq<u8>>,
    prefix: Seq<u8>,
    vs: Seq<T::V>,
    k: nat,
    bound: nat,
)
    requires
        k <= vs.len() <= u32::MAX,
        k <= bound,
        forall|i: int| 0 <= i < vs.len() ==> T::encodable(#[trigger] vs[i]),
        slots_apart(prefix, bound),
    ensures
        spec_count(filled::<T>(m, prefix, vs, k), prefix) == spec_count(m, prefix),
        forall|i: u32|
            i < k ==> #[trigger] spec_item::<T>(filled::<T>(m, prefix, vs, k), prefix, i)
                == vs[i as int],
        forall|i: u32|
            k <= i < bound ==> #[trigger] spec_item::<T>(filled::<T>(m, prefix, vs, k), prefix, i)
                == spec_item::<T>(m, prefix, i),
    decreases k,
{
    if k > 0 {
        let last = (k - 1) as u32;
        let before = filled::<T>(m, prefix, vs, (k - 1) as nat);
        let now = filled::<T>(m, prefix, vs, k);
        lemma_filled::<T>(m, prefix, vs, (k - 1) as nat, bound);
        T::lemma_round_trip(vs[k - 1]);
        assert(!is_child_storage_key(item_slot(prefix, last)));
        assert forall|i: u32| i < k implies #[trigger] spec_item::<T>(now, prefix, i)
            == vs[i as int] by {
            if i != last {
                assert(item_slot(prefix, i) != item_slot(prefix, last));
                assert(spec_item::<T>(before, prefix, i) == vs[i as int]);
            }
        }
        assert forall|i: u32| k <= i < bound implies #[trigger] spec_item::<T>(now, prefix, i)
            == spec_item::<T>(m, prefix, i) by {
            assert(item_slot(prefix, i) != item_slot(prefix, last));
            assert(spec_item::<T>(before, prefix, i) == spec_item::<T>(m, prefix, i));
        }
    }
}

/// Setting the items makes the sequence hold exactly the values given: the
/// count is their number and the items are the values, in order.
pub proof fn lemma_set_items<T: Storable>(m: Map<Seq<u8>, Seq<u8>>, prefix: Seq<u8>, vs: Seq<T::V>)
    requires
        vs.len() <= u32::MAX,
        forall|i: int| 0 <= i < vs.len() ==> T::encodable(#[trigger] vs[i]),
        slots_apart(prefix, vs.len()),
        slots_apart(prefix, spec_count(m, prefix) as nat),
    ensures
        spec_count(after_set_items::<T>(m, prefix, vs), prefix) == vs.len(),
        spec_items::<T>(after_set_items::<T>(m, prefix, vs), prefix) == vs,
{
    let n = vs.len() as u32;
    let c = spec_count(m, prefix);
    let bound = if vs.len() >= c { vs.len() } else { c as nat };
    let written = filled::<T>(m, prefix, vs, vs.len());
    let rewritten = after_set_items::<T>(m, prefix, vs);
    lemma_filled::<T>(m, prefix, vs, vs.len(), bound);
    if n <= c {
        lemma_set_count_trims::<T>(written, prefix, n);
    } else {
        lemma_set_count_grows::<T>(written, prefix, n);
    }
    assert forall|j: int| 0 <= j < n implies spec_item::<T>(rewritten, prefix, j as u32)
        == vs[j] by {
        if n <= c {
            assert(spec_items::<T>(written, prefix).take(n as int)[j] == spec_item::<T>(
                written,
                prefix,
                j as u32,
            ));
        }
    }
}

/// No slot of the sequence collides with another: [`slots_apart`] for every
/// index.
pub open spec fn all_slots_apart(prefix: Seq<u8>) -> bool {
    slots_apart(prefix, 0x1_0000_0000)
}

/// No item slot at or above the count holds an entry.
pub open spec fn tidy(m: Map<Seq<u8>, Seq<u8>>, prefix: Seq<u8>) -> bool {
    forall|i: u32| i >= spec_count(m, prefix) ==> !m.contains_key(#[trigger] item_slot(prefix, i))
}

/// A sequence whose counter was never written is empty, and tidy where none
/// of its item slots holds an entry.
pub proof fn lemma_unwritten_sequence_is_empty<T: Storable>(
    m: Map<Seq<u8>, Seq<u8>>,
    prefix: Seq<u8>,
)
    requires
        !m.contains_key(counter_slot(prefix)),
    ensures
        spec_count(m, prefix) == 0,
        spec_items::<T>(m, prefix) == Seq::<T::V>::empty(),
        (forall|i: u32| !m.contains_key(#[trigger] item_slot(prefix, i))) ==> tidy(m, prefix),
{
}

/// Every operation of the sequence keeps it tidy.
pub proof fn lemma_tidy_is_kept<T: Storable>(
    m: Map<Seq<u8>, Seq<u8>>,
    prefix: Seq<u8>,
    index: u32,
    n: u32,
    v: T::V,
)
    requires
        tidy(m, prefix),
        all_slots_apart(prefix),
    ensures
        tidy(after_set_item::<T>(m, prefix, index, v), prefix),
        tidy(after_clear_item(m, prefix, index), prefix),
        tidy(after_set_count(m, prefix, n), prefix),
        spec_count(m, prefix) < u32::MAX ==> tidy(after_push::<T>(m, prefix, v), prefix),
{
    let c = spec_count(m, prefix);
    // Neither a write to an item slot nor its removal touches the counter.
    assert(item_slot(prefix, index) != counter_slot(prefix));
    lemma_tidy_after_set_count(m, prefix, n);
    if c < u32::MAX {
        assert(item_slot(prefix, c) != counter_slot(prefix));
        u32::lemma_round_trip((c + 1) as u32);
    }
}

/// Setting the count keeps a tidy sequence tidy.
proof fn lemma_tidy_after_set_count(m: Map<Seq<u8>, Seq<u8>>, prefix: Seq<u8>, n: u32)
    requires
        tidy(m, prefix),
        all_slots_apart(prefix),
    ensures
        spec_count(after_set_count(m, prefix, n), prefix) == n,
        tidy(after_set_count(m, prefix, n), prefix),
{
    u32::lemma_round_trip(n);
}

/// Rewriting the items keeps a tidy sequence tidy.
pub proof fn lemma_tidy_after_set_items<T: Storable>(
    m: Map<Seq<u8>, Seq<u8>>,
    prefix: Seq<u8>,
    vs: Seq<T::V>,
)
    requires
        tidy(m, prefix),
        all_slots_apart(prefix),
        vs.len() <= u32::MAX,
    ensures
        tidy(after_set_items::<T>(m, prefix, vs), prefix),
{
    let c = spec_count(m, prefix);
    let n = vs.len() as u32;
    let rewritten = after_set_items::<T>(m, prefix, vs);
    lemma_filled_elsewhere::<T>(m, prefix, vs, vs.len());
    u32::lemma_round_trip(n);
    assert forall|i: u32| i >= n implies !rewritten.contains_key(
        #[trigger] item_slot(prefix, i),
    ) by {
        if i >= c {
            // The slot was empty and none of the values was written to it.
            assert(!is_vacated(prefix, 0, n, item_slot(prefix, i)));
        }
    }
}

/// Writing the first `k` values touches the slots of the items below `k`
/// and no other hashed key.
proof fn lemma_filled_elsewhere<T: Storable>(
    m: Map<Seq<u8>, Seq<u8>>,
    prefix: Seq<u8>,
    vs: Seq<T::V>,
    k: nat,
)
    requires
        k <= vs.len() <= u32::MAX,
        all_slots_apart(prefix),
    ensures
        spec_count(filled::<T>(m, prefix, vs, k), prefix) == spec_count(m, prefix),
        forall|slot: Seq<u8>|
            !is_vacated(prefix, 0, k as u32, slot) ==> (#[trigger] filled::<T>(
                m,
                prefix,
                vs,
                k,
            ).contains_key(slot) <==> m.contains_key(slot)),
    decreases k,
{
    if k > 0 {
        let last = (k - 1) as u32;
        let now = filled::<T>(m, prefix, vs, k);
        lemma_filled_elsewhere::<T>(m, prefix, vs, (k - 1) as nat);
        assert(item_slot(prefix, last) != counter_slot(prefix));
        assert forall|slot: Seq<u8>| !is_vacated(prefix, 0, k as u32, slot) implies (
        #[trigger] now.contains_key(slot) <==> m.contains_key(slot)) by {
            assert(!is_vacated(prefix, 0, last, slot));
        }
    }
}

/// Growth is a change of the counter alone: in a tidy sequence, setting the
/// count to `n`, at least the old count, keeps the old items and makes each
/// new one read as the default.
pub proof fn lemma_set_count_grows_with_defaults<T: Storable>(
    m: Map<Seq<u8>, Seq<u8>>,
    prefix: Seq<u8>,
    n: u32,
)
    requires
        spec_count(m, prefix) <= n,
        slots_apart(prefix, n as nat),
        tidy(m, prefix),
    ensures
        spec_items::<T>(after_set_count(m, prefix, n), prefix) == spec_items::<T>(m, prefix)
            + Seq::new((n - spec_count(m, prefix)) as nat, |i: int| T::spec_default()),
{
    let c = spec_count(m, prefix);
    let after = after_set_count(m, prefix, n);
    lemma_set_count_grows::<T>(m, prefix, n);
    let expected = spec_items::<T>(m, prefix) + Seq::new(
        (n - c) as nat,
        |i: int| T::spec_default(),
    );
    assert forall|j: int| 0 <= j < n implies spec_item::<T>(after, prefix, j as u32)
        == expected[j] by {
        if j >= c {
            assert(!m.contains_key(item_slot(prefix, j as u32)));
        }
    }
}

} // verus!
