//! Typed access to storage under the keys of the raw store.
//!
//! The key is handed to the raw store as it is. A value of type `T` is kept
//! as its encoding; an entry that is missing and one that does not decode
//! both read as no value.

use vstd::prelude::*;
use crate::codec::{Storable, value_of};
use crate::storage::{Storage, bytes_of, is_child_storage_key, lookup, written};

verus! {

/// The value of type `T` that the pairs `m` hold under `key`: the decoding
/// of the bytes there, `None` where there are none or where they do not
/// decode.
pub open spec fn stored_at<T: Storable>(m: Map<Seq<u8>, Seq<u8>>, key: Seq<u8>) -> Option<T::V> {
    match lookup(m, key) {
        Some(bytes) => T::spec_decode(bytes),
        None => None,
    }
}

/// The pairs `m` after `v` was put under `key`. The raw store refuses a
/// reserved key and then stays as it was.
pub open spec fn after_put_at<T: Storable>(
    m: Map<Seq<u8>, Seq<u8>>,
    key: Seq<u8>,
    v: T::V,
) -> Map<Seq<u8>, Seq<u8>> {
    written(m, key, T::spec_encode(v))
}

/// `found` where it holds a value, else `fallback`.
pub open spec fn or_value<V>(found: Option<V>, fallback: V) -> V {
    match found {
        Some(v) => v,
        None => fallback,
    }
}

/// Returns the value in storage under `key`, or `None` where there is no
/// entry or the entry does not decode.
pub fn get<T: Storable>(store: &mut Storage, key: &[u8]) -> (r: Option<T>)
    ensures
        final(store)@ == old(store)@,
        value_of(r) == stored_at::<T>(old(store)@, key@),
{
    match store.get(key) {
        Some(bytes) => T::decode(bytes.as_slice()),
        None => None,
    }
}

/// Returns the value in storage under `key`, or the type's default where
/// there is none.
pub fn get_or_default<T: Storable>(store: &mut Storage, key: &[u8]) -> (r: T)
    ensures
        final(store)@ == old(store)@,
        r@ == or_value(stored_at::<T>(old(store)@, key@), T::spec_default()),
{
    match get::<T>(store, key) {
        Some(v) => v,
        None => T::default_value(),
    }
}

/// Returns the value in storage under `key`, or `default_value` where there
/// is none.
pub fn get_or<T: Storable>(store: &mut Storage, key: &[u8], default_value: T) -> (r: T)
    ensures
        final(store)@ == old(store)@,
        r@ == or_value(stored_at::<T>(old(store)@, key@), default_value@),
        stored_at::<T>(old(store)@, key@) is None ==> r == default_value,
{
    match get::<T>(store, key) {
        Some(v) => v,
        None => default_value,
    }
}

/// Returns the value in storage under `key`, or what `default_value` returns
/// where there is none. `default_value` is called on that path only, so it
/// need not be callable when a value is there.
pub fn get_or_else<T: Storable, F: FnOnce() -> T>(
    store: &mut Storage,
    key: &[u8],
    default_value: F,
) -> (r: T)
    requires
        stored_at::<T>(old(store)@, key@) is None ==> default_value.requires(()),
    ensures
        final(store)@ == old(store)@,
        stored_at::<T>(old(store)@, key@) matches Some(v) ==> r@ == v,
        stored_at::<T>(old(store)@, key@) is None ==> default_value.ensures((), r),
{
    match get::<T>(store, key) {
        Some(v) => v,
        None => default_value(),
    }
}

/// Puts `value` in storage under `key`, over any earlier entry. The raw
/// store refuses a reserved key and then stays as it was.
pub fn put<T: Storable>(store: &mut Storage, key: &[u8], value: &T)
    requires
        T::encodable(value@),
    ensures
        final(store)@ == after_put_at::<T>(old(store)@, key@, value@),
{
    let bytes = value.encode();
    store.put(key, bytes.as_slice());
}

/// Removes the entry under `key` and returns the value it held, or `None`
/// where there was no entry or it did not decode. The slot is empty
/// afterwards in either case.
pub fn take<T: Storable>(store: &mut Storage, key: &[u8]) -> (r: Option<T>)
    ensures
        final(store)@ == old(store)@.remove(key@),
        value_of(r) == stored_at::<T>(old(store)@, key@),
{
    match store.take(key) {
        Some(bytes) => T::decode(bytes.as_slice()),
        None => None,
    }
}

/// Removes the entry under `key` and returns the value it held, or the
/// type's default where there was none.
pub fn take_or_default<T: Storable>(store: &mut Storage, key: &[u8]) -> (r: T)
    ensures
        final(store)@ == old(store)@.remove(key@),
        r@ == or_value(stored_at::<T>(old(store)@, key@), T::spec_default()),
{
    match take::<T>(store, key) {
        Some(v) => v,
        None => T::default_value(),
    }
}

/// Removes the entry under `key` and returns the value it held, or
/// `default_value` where there was none.
pub fn take_or<T: Storable>(store: &mut Storage, key: &[u8], default_value: T) -> (r: T)
    ensures
        final(store)@ == old(store)@.remove(key@),
        r@ == or_value(stored_at::<T>(old(store)@, key@), default_value@),
        stored_at::<T>(old(store)@, key@) is None ==> r == default_value,
{
    match take::<T>(store, key) {
        Some(v) => v,
        None => default_value,
    }
}

/// Removes the entry under `key` and returns the value it held, or what
/// `default_value` returns where there was none. `default_value` is called
/// on that path only.
pub fn take_or_else<T: Storable, F: FnOnce() -> T>(
    store: &mut Storage,
    key: &[u8],
    default_value: F,
) -> (r: T)
    requires
        stored_at::<T>(old(store)@, key@) is None ==> default_value.requires(()),
    ensures
        final(store)@ == old(store)@.remove(key@),
        stored_at::<T>(old(store)@, key@) matches Some(v) ==> r@ == v,
        stored_at::<T>(old(store)@, key@) is None ==> default_value.ensures((), r),
{
    match take::<T>(store, key) {
        Some(v) => v,
        None => default_value(),
    }
}

/// Whether `key` has an entry in storage. The entry is not decoded, so one
/// that would not decode still counts.
pub fn key_exists(store: &mut Storage, key: &[u8]) -> (r: bool)
    ensures
        final(store)@ == old(store)@,
        r == old(store)@.contains_key(key@),
{
    store.contains(key)
}

/// Removes the entry under `key`. Where there is none, nothing changes.
pub fn kill(store: &mut Storage, key: &[u8])
    ensures
        final(store)@ == old(store)@.remove(key@),
{
    store.kill(key);
}

/// Returns the bytes in storage under `key` as they are.
pub fn get_raw(store: &mut Storage, key: &[u8]) -> (r: Option<Vec<u8>>)
    ensures
        final(store)@ == old(store)@,
        bytes_of(r) == lookup(old(store)@, key@),
{
    store.get(key)
}

/// Puts the bytes `value` in storage under `key` as they are.
pub fn put_raw(store: &mut Storage, key: &[u8], value: &[u8])
    ensures
        final(store)@ == written(old(store)@, key@, value@),
{
    store.put(key, value);
}

/// Round trip: after `v` was put under `key`, the key reads as `v`. The raw
/// store refuses reserved keys, so those are left out.
pub proof fn lemma_put_then_get_at<T: Storable>(m: Map<Seq<u8>, Seq<u8>>, key: Seq<u8>, v: T::V)
    requires
        T::encodable(v),
        !is_child_storage_key(key),
    ensures
        stored_at::<T>(after_put_at::<T>(m, key, v), key) == Some(v),
        after_put_at::<T>(m, key, v).contains_key(key),
{
    T::lemma_round_trip(v);
}

/// A put under one key leaves every other key as it was.
pub proof fn lemma_put_keeps_other_keys<T: Storable>(
    m: Map<Seq<u8>, Seq<u8>>,
    key: Seq<u8>,
    v: T::V,
    other: Seq<u8>,
)
    requires
        other != key,
    ensures
        lookup(after_put_at::<T>(m, key, v), other) == lookup(m, other),
{
}

} // verus!
