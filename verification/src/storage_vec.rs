//! A keyed sequence: an appendable list kept in flat storage under a prefix.
//!
//! The counter lives in the slot of the key `prefix ++ "len"`, item `i` in
//! the slot of the key `prefix ++ i` with `i` as four bytes, least
//! significant first. All slots are hashed with the narrow XX digest.

use vstd::prelude::*;
use crate::codec::{Storable, le_bytes, keyed_index, keyed_tag};
use crate::hashed::{after_kill, after_put, get_or_default, kill, put, stored};
use crate::unhashed::or_value;
use crate::hasher::{StorageHasher, Twox128};
use crate::storage::Storage;

verus! {

/// The three bytes `len` that end the key of the counter slot.
pub open spec fn counter_tag() -> Seq<u8> {
    seq![108u8, 101u8, 110u8]
}

/// The logical key of the counter slot of the sequence under `prefix`.
pub open spec fn counter_key(prefix: Seq<u8>) -> Seq<u8> {
    prefix + counter_tag()
}

/// The logical key of the slot of item `index` of the sequence under
/// `prefix`.
pub open spec fn item_key(prefix: Seq<u8>, index: u32) -> Seq<u8> {
    prefix + le_bytes(index as nat, 4)
}

/// The hashed key of the counter slot.
pub open spec fn counter_slot(prefix: Seq<u8>) -> Seq<u8> {
    Twox128::spec_hash(counter_key(prefix))
}

/// The hashed key of the slot of item `index`.
pub open spec fn item_slot(prefix: Seq<u8>, index: u32) -> Seq<u8> {
    Twox128::spec_hash(item_key(prefix, index))
}

/// The count that the pairs `m` hold for the sequence under `prefix`: what
/// the counter slot holds, 0 where it was never written.
pub open spec fn spec_count(m: Map<Seq<u8>, Seq<u8>>, prefix: Seq<u8>) -> u32 {
    or_value(stored::<u32, Twox128>(m, counter_key(prefix)), 0u32)
}

/// What item `index` of the sequence under `prefix` reads as: what its slot
/// holds, the type's default where the slot is empty.
pub open spec fn spec_item<T: Storable>(
    m: Map<Seq<u8>, Seq<u8>>,
    prefix: Seq<u8>,
    index: u32,
) -> T::V {
    or_value(stored::<T, Twox128>(m, item_key(prefix, index)), T::spec_default())
}

/// The items of the sequence under `prefix`, in order: item 0 up to the one
/// before the count.
pub open spec fn spec_items<T: Storable>(m: Map<Seq<u8>, Seq<u8>>, prefix: Seq<u8>) -> Seq<T::V> {
    Seq::new(spec_count(m, prefix) as nat, |i: int| spec_item::<T>(m, prefix, i as u32))
}

/// The values of a sequence of exec values.
pub open spec fn values_of<T: View>(s: Seq<T>) -> Seq<T::V> {
    Seq::new(s.len(), |i: int| s[i]@)
}

/// Whether `slot` is the hashed key of an item with index in `from..to`.
pub open spec fn is_vacated(prefix: Seq<u8>, from: u32, to: u32, slot: Seq<u8>) -> bool {
    exists|i: u32| from <= i < to && #[trigger] item_slot(prefix, i) == slot
}

/// The hashed keys of the items with index in `from..to`.
pub open spec fn vacated(prefix: Seq<u8>, from: u32, to: u32) -> Set<Seq<u8>> {
    Set::new(|slot: Seq<u8>| is_vacated(prefix, from, to, slot))
}

/// The pairs `m` after item `index` was set to `v`: written where the index
/// is below the count, untouched otherwise.
pub open spec fn after_set_item<T: Storable>(
    m: Map<Seq<u8>, Seq<u8>>,
    prefix: Seq<u8>,
    index: u32,
    v: T::V,
) -> Map<Seq<u8>, Seq<u8>> {
    if index < spec_count(m, prefix) {
        after_put::<T, Twox128>(m, item_key(prefix, index), v)
    } else {
        m
    }
}

/// The pairs `m` after item `index` was cleared: its slot is empty where the
/// index is below the count, untouched otherwise.
pub open spec fn after_clear_item(m: Map<Seq<u8>, Seq<u8>>, prefix: Seq<u8>, index: u32) -> Map<
    Seq<u8>,
    Seq<u8>,
> {
    if index < spec_count(m, prefix) {
        after_kill::<Twox128>(m, item_key(prefix, index))
    } else {
        m
    }
}

/// The pairs `m` after the count was set to `n`: the slots of the items from
/// `n` up to the old count are empty, and the counter slot holds `n`.
pub open spec fn after_set_count(m: Map<Seq<u8>, Seq<u8>>, prefix: Seq<u8>, n: u32) -> Map<
    Seq<u8>,
    Seq<u8>,
> {
    after_put::<u32, Twox128>(
        m.remove_keys(vacated(prefix, n, spec_count(m, prefix))),
        counter_key(prefix),
        n,
    )
}

/// The pairs `m` after `v` was pushed: `v` is written at the index that the
/// count gives, then the count is set to one more.
pub open spec fn after_push<T: Storable>(
    m: Map<Seq<u8>, Seq<u8>>,
    prefix: Seq<u8>,
    v: T::V,
) -> Map<Seq<u8>, Seq<u8>> {
    after_set_count(
        after_put::<T, Twox128>(m, item_key(prefix, spec_count(m, prefix)), v),
        prefix,
        (spec_count(m, prefix) + 1) as u32,
    )
}

/// The pairs `m` after the first `n` of the values `vs` were written to the
/// item slots 0 to `n - 1`, in that order.
pub open spec fn filled<T: Storable>(
    m: Map<Seq<u8>, Seq<u8>>,
    prefix: Seq<u8>,
    vs: Seq<T::V>,
    n: nat,
) -> Map<Seq<u8>, Seq<u8>>
    decreases n,
{
    if n == 0 {
        m
    } else {
        after_put::<T, Twox128>(
            filled::<T>(m, prefix, vs, (n - 1) as nat),
            item_key(prefix, (n - 1) as u32),
            vs[n - 1],
        )
    }
}

/// The pairs `m` after the sequence was rewritten to hold `vs`: the values
/// are written from index 0 upward, then the count is set to their number.
pub open spec fn after_set_items<T: Storable>(
    m: Map<Seq<u8>, Seq<u8>>,
    prefix: Seq<u8>,
    vs: Seq<T::V>,
) -> Map<Seq<u8>, Seq<u8>> {
    after_set_count(filled::<T>(m, prefix, vs, vs.len()), prefix, vs.len() as u32)
}

/// Removing one more slot extends the vacated range by one index.
proof fn lemma_vacated_step(m: Map<Seq<u8>, Seq<u8>>, prefix: Seq<u8>, from: u32, to: u32)
    requires
        from <= to < u32::MAX,
    ensures
        m.remove_keys(vacated(prefix, from, to)).remove(item_slot(prefix, to)) == m.remove_keys(
            vacated(prefix, from, (to + 1) as u32),
        ),
{
    let next = (to + 1) as u32;
    assert forall|slot: Seq<u8>|
        is_vacated(prefix, from, next, slot) <==> (is_vacated(prefix, from, to, slot) || slot
            == item_slot(prefix, to)) by {}
}

/// Builds the logical key of the counter slot.
pub fn counter_key_of(prefix: &[u8]) -> (r: Vec<u8>)
    ensures
        r@ == counter_key(prefix@),
{
    let tag: [u8; 3] = [108u8, 101u8, 110u8];
    assert(tag@ =~= counter_tag());
    keyed_tag(&tag, prefix)
}

/// Builds the logical key of the slot of item `index`.
pub fn item_key_of(prefix: &[u8], index: u32) -> (r: Vec<u8>)
    ensures
        r@ == item_key(prefix@, index),
{
    keyed_index(index, prefix)
}

/// A sequence of storable items under a fixed prefix.
pub trait StorageVec {
    /// The type of the items.
    type Item: Storable;

    /// The prefix of every key of the sequence.
    const PREFIX: &'static [u8];

    /// Reads the items in order. A slot that is empty reads as the default.
    fn items(store: &mut Storage) -> (r: Vec<Self::Item>)
        ensures
            final(store)@ == old(store)@,
            values_of(r@) == spec_items::<Self::Item>(old(store)@, Self::PREFIX@),
    {
        let ghost m = store@;
        let n = Self::count(store);
        let mut out: Vec<Self::Item> = Vec::new();
        let mut i: u32 = 0;
        while i < n
            invariant
                i <= n,
                n == spec_count(m, Self::PREFIX@),
                store@ == m,
                out@.len() == i,
                forall|j: int|
                    0 <= j < i ==> (#[trigger] out@[j])@ == spec_item::<Self::Item>(
                        m,
                        Self::PREFIX@,
                        j as u32,
                    ),
            decreases n - i,
        {
            let v = Self::item(store, i);
            out.push(v);
            i = i + 1;
        }
        out
    }

    /// Rewrites the sequence to hold `items`: writes them from index 0
    /// upward, then sets the count to their number.
    fn set_items(store: &mut Storage, items: &[Self::Item])
        requires
            items@.len() <= u32::MAX,
            forall|i: int| 0 <= i < items@.len() ==> Self::Item::encodable(#[trigger] items@[i]@),
        ensures
            final(store)@ == after_set_items::<Self::Item>(
                old(store)@,
                Self::PREFIX@,
                values_of(items@),
            ),
    {
        let ghost m = store@;
        let ghost vs = values_of(items@);
        let mut count: u32 = 0;
        while (count as usize) < items.len()
            invariant
                count <= items@.len() <= u32::MAX,
                vs == values_of(items@),
                forall|i: int|
                    0 <= i < items@.len() ==> Self::Item::encodable(#[trigger] items@[i]@),
                store@ == filled::<Self::Item>(m, Self::PREFIX@, vs, count as nat),
            decreases items@.len() - count,
        {
            let key = item_key_of(Self::PREFIX, count);
            put::<Self::Item, Twox128>(store, key.as_slice(), &items[count as usize]);
            count = count + 1;
        }
        Self::set_count(store, count);
    }

    /// Appends `item`: writes it at the index that the count gives, then
    /// sets the count to one more.
    fn push(store: &mut Storage, item: &Self::Item)
        requires
            Self::Item::encodable(item@),
            spec_count(old(store)@, Self::PREFIX@) < u32::MAX,
        ensures
            final(store)@ == after_push::<Self::Item>(old(store)@, Self::PREFIX@, item@),
    {
        let len = Self::count(store);
        let key = item_key_of(Self::PREFIX, len);
        put::<Self::Item, Twox128>(store, key.as_slice(), item);
        Self::set_count(store, len + 1);
    }

    /// Writes `item` at `index` where the index is below the count, and does
    /// nothing otherwise: the count is never extended.
    fn set_item(store: &mut Storage, index: u32, item: &Self::Item)
        requires
            Self::Item::encodable(item@),
        ensures
            final(store)@ == after_set_item::<Self::Item>(
                old(store)@,
                Self::PREFIX@,
                index,
                item@,
            ),
    {
        if index < Self::count(store) {
            let key = item_key_of(Self::PREFIX, index);
            put::<Self::Item, Twox128>(store, key.as_slice(), item);
        }
    }

    /// Empties the slot of item `index` where the index is below the count,
    /// and does nothing otherwise.
    fn clear_item(store: &mut Storage, index: u32)
        ensures
            final(store)@ == after_clear_item(old(store)@, Self::PREFIX@, index),
    {
        if index < Self::count(store) {
            let key = item_key_of(Self::PREFIX, index);
            kill::<Twox128>(store, key.as_slice());
        }
    }

    /// Reads item `index`. The count is not consulted: any index can be
    /// asked for.
    fn item(store: &mut Storage, index: u32) -> (r: Self::Item)
        ensures
            final(store)@ == old(store)@,
            r@ == spec_item::<Self::Item>(old(store)@, Self::PREFIX@, index),
    {
        let key = item_key_of(Self::PREFIX, index);
        get_or_default::<Self::Item, Twox128>(store, key.as_slice())
    }

    /// Sets the count to `count`. Where that is below the old count, the
    /// slots of the items from `count` up to the old count are emptied
    /// first; the counter is written last.
    fn set_count(store: &mut Storage, count: u32)
        ensures
            final(store)@ == after_set_count(old(store)@, Self::PREFIX@, count),
    {
        let ghost m = store@;
        let current = Self::count(store);
        let mut i: u32 = count;
        while i < current
            invariant
                count <= i,
                i <= current || i == count,
                current == spec_count(m, Self::PREFIX@),
                store@ == m.remove_keys(vacated(Self::PREFIX@, count, i)),
            decreases current - i,
        {
            let key = item_key_of(Self::PREFIX, i);
            kill::<Twox128>(store, key.as_slice());
            proof {
                lemma_vacated_step(m, Self::PREFIX@, count, i);
            }
            i = i + 1;
        }
        let key = counter_key_of(Self::PREFIX);
        put::<u32, Twox128>(store, key.as_slice(), &count);
    }

    /// Reads the count: what the counter slot holds, 0 where it was never
    /// written.
    fn count(store: &mut Storage) -> (r: u32)
        ensures
            final(store)@ == old(store)@,
            r == spec_count(old(store)@, Self::PREFIX@),
    {
        let key = counter_key_of(Self::PREFIX);
        get_or_default::<u32, Twox128>(store, key.as_slice())
    }
}

} // verus!
