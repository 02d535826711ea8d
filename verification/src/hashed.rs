//! Typed access to storage under hashed keys.
//!
//! Every operation names its slot by a logical key and a hash strategy `H`;
//! the raw store sees `H::spec_hash(key)`. Each operation hashes the key
//! once and hands the hashed key to its namesake in [`crate::unhashed`].

use vstd::prelude::*;
use crate::codec::{Storable, value_of};
use crate::hasher::{Blake2_128, Blake2_256, StorageHasher, Twox128, Twox256, Twox64Concat};
use crate::hasher::{lemma_concat_layout, lemma_digest_widths};
use crate::storage::{Storage, bytes_of, fresh_entries, is_child_storage_key, lookup, written};
use crate::unhashed;
use crate::unhashed::{after_put_at, or_value, stored_at};

verus! {

/// The value of type `T` that the pairs `m` hold for `key` under strategy
/// `H`.
pub open spec fn stored<T: Storable, H: StorageHasher>(
    m: Map<Seq<u8>, Seq<u8>>,
    key: Seq<u8>,
) -> Option<T::V> {
    stored_at::<T>(m, H::spec_hash(key))
}

/// Whether the pairs `m` hold an entry for `key` under strategy `H`.
pub open spec fn present<H: StorageHasher>(m: Map<Seq<u8>, Seq<u8>>, key: Seq<u8>) -> bool {
    m.contains_key(H::spec_hash(key))
}

/// The pairs `m` after `v` was put under `key`.
pub open spec fn after_put<T: Storable, H: StorageHasher>(
    m: Map<Seq<u8>, Seq<u8>>,
    key: Seq<u8>,
    v: T::V,
) -> Map<Seq<u8>, Seq<u8>> {
    after_put_at::<T>(m, H::spec_hash(key), v)
}

/// The pairs `m` after the entry for `key` was removed.
pub open spec fn after_kill<H: StorageHasher>(m: Map<Seq<u8>, Seq<u8>>, key: Seq<u8>) -> Map<
    Seq<u8>,
    Seq<u8>,
> {
    m.remove(H::spec_hash(key))
}

/// Returns the value in storage under `key`, or `None` where there is no
/// entry or the entry does not decode.
pub fn get<T: Storable, H: StorageHasher>(store: &mut Storage, key: &[u8]) -> (r: Option<T>)
    ensures
        final(store)@ == old(store)@,
        value_of(r) == stored::<T, H>(old(store)@, key@),
{
    let hashed = H::hash(key);
    unhashed::get::<T>(store, hashed.as_slice())
}

/// Returns the value in storage under `key`, or the type's default where
/// there is none.
pub fn get_or_default<T: Storable, H: StorageHasher>(store: &mut Storage, key: &[u8]) -> (r: T)
    ensures
        final(store)@ == old(store)@,
        r@ == or_value(stored::<T, H>(old(store)@, key@), T::spec_default()),
{
    let hashed = H::hash(key);
    unhashed::get_or_default::<T>(store, hashed.as_slice())
}

/// Returns the value in storage under `key`, or `default_value` where there
/// is none.
pub fn get_or<T: Storable, H: StorageHasher>(
    store: &mut Storage,
    key: &[u8],
    default_value: T,
) -> (r: T)
    ensures
        final(store)@ == old(store)@,
        r@ == or_value(stored::<T, H>(old(store)@, key@), default_value@),
        stored::<T, H>(old(store)@, key@) is None ==> r == default_value,
{
    let hashed = H::hash(key);
    unhashed::get_or::<T>(store, hashed.as_slice(), default_value)
}

/// Returns the value in storage under `key`, or what `default_value` returns
/// where there is none. `default_value` is called on that path only, so it
/// need not be callable when a value is there.
pub fn get_or_else<T: Storable, H: StorageHasher, F: FnOnce() -> T>(
    store: &mut Storage,
    key: &[u8],
    default_value: F,
) -> (r: T)
    requires
        stored::<T, H>(old(store)@, key@) is None ==> default_value.requires(()),
    ensures
        final(store)@ == old(store)@,
        stored::<T, H>(old(store)@, key@) matches Some(v) ==> r@ == v,
        stored::<T, H>(old(store)@, key@) is None ==> default_value.ensures((), r),
{
    let hashed = H::hash(key);
    unhashed::get_or_else::<T, F>(store, hashed.as_slice(), default_value)
}

/// Puts `value` in storage under `key`, over any earlier entry. The raw
/// store refuses a hashed key in its reserved range and then stays as it
/// was.
pub fn put<T: Storable, H: StorageHasher>(store: &mut Storage, key: &[u8], value: &T)
    requires
        T::encodable(value@),
    ensures
        final(store)@ == after_put::<T, H>(old(store)@, key@, value@),
{
    let hashed = H::hash(key);
    unhashed::put::<T>(store, hashed.as_slice(), value);
}

/// Removes the entry under `key` and returns the value it held, or `None`
/// where there was no entry or it did not decode. The slot is empty
/// afterwards in either case.
pub fn take<T: Storable, H: StorageHasher>(store: &mut Storage, key: &[u8]) -> (r: Option<T>)
    ensures
        final(store)@ == after_kill::<H>(old(store)@, key@),
        value_of(r) == stored::<T, H>(old(store)@, key@),
{
    let hashed = H::hash(key);
    unhashed::take::<T>(store, hashed.as_slice())
}

/// Removes the entry under `key` and returns the value it held, or the
/// type's default where there was none.
pub fn take_or_default<T: Storable, H: StorageHasher>(store: &mut Storage, key: &[u8]) -> (r: T)
    ensures
        final(store)@ == after_kill::<H>(old(store)@, key@),
        r@ == or_value(stored::<T, H>(old(store)@, key@), T::spec_default()),
{
    let hashed = H::hash(key);
    unhashed::take_or_default::<T>(store, hashed.as_slice())
}

/// Removes the entry under `key` and returns the value it held, or
/// `default_value` where there was none.
pub fn take_or<T: Storable, H: StorageHasher>(
    store: &mut Storage,
    key: &[u8],
    default_value: T,
) -> (r: T)
    ensures
        final(store)@ == after_kill::<H>(old(store)@, key@),
        r@ == or_value(stored::<T, H>(old(store)@, key@), default_value@),
        stored::<T, H>(old(store)@, key@) is None ==> r == default_value,
{
    let hashed = H::hash(key);
    unhashed::take_or::<T>(store, hashed.as_slice(), default_value)
}

/// Removes the entry under `key` and returns the value it held, or what
/// `default_value` returns where there was none. `default_value` is called
/// on that path only.
pub fn take_or_else<T: Storable, H: StorageHasher, F: FnOnce() -> T>(
    store: &mut Storage,
    key: &[u8],
    default_value: F,
) -> (r: T)
    requires
        stored::<T, H>(old(store)@, key@) is None ==> default_value.requires(()),
    ensures
        final(store)@ == after_kill::<H>(old(store)@, key@),
        stored::<T, H>(old(store)@, key@) matches Some(v) ==> r@ == v,
        stored::<T, H>(old(store)@, key@) is None ==> default_value.ensures((), r),
{
    let hashed = H::hash(key);
    unhashed::take_or_else::<T, F>(store, hashed.as_slice(), default_value)
}

/// Whether `key` has an entry in storage. The entry is not decoded, so one
/// that would not decode still counts.
pub fn key_exists<H: StorageHasher>(store: &mut Storage, key: &[u8]) -> (r: bool)
    ensures
        final(store)@ == old(store)@,
        r == present::<H>(old(store)@, key@),
{
    let hashed = H::hash(key);
    unhashed::key_exists(store, hashed.as_slice())
}

/// Removes the entry under `key`. Where there is none, nothing changes.
pub fn kill<H: StorageHasher>(store: &mut Storage, key: &[u8])
    ensures
        final(store)@ == after_kill::<H>(old(store)@, key@),
{
    let hashed = H::hash(key);
    unhashed::kill(store, hashed.as_slice());
}

/// Returns the bytes in storage under `key` as they are.
pub fn get_raw<H: StorageHasher>(store: &mut Storage, key: &[u8]) -> (r: Option<Vec<u8>>)
    ensures
        final(store)@ == old(store)@,
        bytes_of(r) == lookup(old(store)@, H::spec_hash(key@)),
{
    let hashed = H::hash(key);
    unhashed::get_raw(store, hashed.as_slice())
}

/// Puts the bytes `value` in storage under `key` as they are.
pub fn put_raw<H: StorageHasher>(store: &mut Storage, key: &[u8], value: &[u8])
    ensures
        final(store)@ == written(old(store)@, H::spec_hash(key@), value@),
{
    let hashed = H::hash(key);
    unhashed::put_raw(store, hashed.as_slice(), value);
}

/// Round trip: after `v` was put under `key`, `key` reads as `v`, for every
/// storable type and every strategy. The raw store refuses hashed keys in
/// its reserved range, so those are left out.
pub proof fn lemma_put_then_get<T: Storable, H: StorageHasher>(
    m: Map<Seq<u8>, Seq<u8>>,
    key: Seq<u8>,
    v: T::V,
)
    requires
        T::encodable(v),
        !is_child_storage_key(H::spec_hash(key)),
    ensures
        stored::<T, H>(after_put::<T, H>(m, key, v), key) == Some(v),
{
    T::lemma_round_trip(v);
}

/// A put replaces what an earlier put under the same key left.
pub proof fn lemma_put_overwrites<T: Storable, H: StorageHasher>(
    m: Map<Seq<u8>, Seq<u8>>,
    key: Seq<u8>,
    v: T::V,
    w: T::V,
)
    ensures
        after_put::<T, H>(after_put::<T, H>(m, key, v), key, w) == after_put::<T, H>(m, key, w),
{
}

/// A put or a kill under one key leaves every key with another hashed key
/// as it was.
pub proof fn lemma_other_keys_are_kept<T: Storable, U: Storable, H: StorageHasher>(
    m: Map<Seq<u8>, Seq<u8>>,
    key: Seq<u8>,
    v: T::V,
    other: Seq<u8>,
)
    requires
        H::spec_hash(other) != H::spec_hash(key),
    ensures
        stored::<U, H>(after_put::<T, H>(m, key, v), other) == stored::<U, H>(m, other),
        stored::<U, H>(after_kill::<H>(m, key), other) == stored::<U, H>(m, other),
        present::<H>(after_put::<T, H>(m, key, v), other) == present::<H>(m, other),
        present::<H>(after_kill::<H>(m, key), other) == present::<H>(m, other),
{
}

/// A key has an entry right after a put, and none after a kill that
/// follows. Hashed keys in the reserved range of the raw store are left out.
pub proof fn lemma_present_after_put_until_kill<T: Storable, H: StorageHasher>(
    m: Map<Seq<u8>, Seq<u8>>,
    key: Seq<u8>,
    v: T::V,
)
    requires
        !is_child_storage_key(H::spec_hash(key)),
    ensures
        present::<H>(after_put::<T, H>(m, key, v), key),
        !present::<H>(after_kill::<H>(after_put::<T, H>(m, key, v), key), key),
{
}

/// In a fresh store no key has an entry, whichever of the five strategies
/// hashes it: the one pair that a fresh store holds has a key too short to
/// be a hashed key.
pub proof fn lemma_fresh_store_has_no_entry(key: Seq<u8>)
    ensures
        !present::<Twox64Concat>(fresh_entries(), key),
        !present::<Blake2_128>(fresh_entries(), key),
        !present::<Blake2_256>(fresh_entries(), key),
        !present::<Twox128>(fresh_entries(), key),
        !present::<Twox256>(fresh_entries(), key),
{
    lemma_concat_layout(key);
    lemma_digest_widths(key);
}

/// A kill leaves its key without an entry, and changes nothing where the
/// key had none.
pub proof fn lemma_kill_is_idempotent<H: StorageHasher>(m: Map<Seq<u8>, Seq<u8>>, key: Seq<u8>)
    ensures
        !present::<H>(after_kill::<H>(m, key), key),
        !present::<H>(m, key) ==> after_kill::<H>(m, key) == m,
        after_kill::<H>(after_kill::<H>(m, key), key) == after_kill::<H>(m, key),
{
}

/// After a take, which leaves the pairs as a kill does, the key reads as no
/// value, whatever the type asked for.
pub proof fn lemma_absent_after_take<T: Storable, H: StorageHasher>(
    m: Map<Seq<u8>, Seq<u8>>,
    key: Seq<u8>,
)
    ensures
        stored::<T, H>(after_kill::<H>(m, key), key) is None,
{
}

} // verus!
