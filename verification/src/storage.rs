//! The raw store: byte keys to byte values, unaware of hashing and typing.

use vstd::prelude::*;

verus! {

/// The test externalities of `sp_io`, kept opaque. Everything that is known
/// of a value is what [`entries`] says it holds.
#[verifier::external_body]
pub struct Externalities {
    inner: sp_io::TestExternalities,
}

/// The top-level key/value pairs that the externalities hold: pending changes
/// of the overlay first, the backend behind them.
pub uninterp spec fn entries(ext: Externalities) -> Map<Seq<u8>, Seq<u8>>;

/// The key `:code`, which fresh externalities already hold.
pub open spec fn code_key() -> Seq<u8> {
    seq![58u8, 99u8, 111u8, 100u8, 101u8]
}

/// The prefix `:child_storage:`. The externalities keep the roots of child
/// tries under it and refuse direct writes to such keys.
pub open spec fn child_storage_prefix() -> Seq<u8> {
    seq![
        58u8, 99u8, 104u8, 105u8, 108u8, 100u8, 95u8, 115u8, 116u8, 111u8, 114u8, 97u8, 103u8,
        101u8, 58u8,
    ]
}

/// Whether `key` lies in the reserved range of child tries.
pub open spec fn is_child_storage_key(key: Seq<u8>) -> bool {
    child_storage_prefix().is_prefix_of(key)
}

/// What a write of `value` under `key` makes of the pairs `m`: the pair is
/// set, unless the key is reserved, in which case nothing changes.
pub open spec fn written(m: Map<Seq<u8>, Seq<u8>>, key: Seq<u8>, value: Seq<u8>) -> Map<
    Seq<u8>,
    Seq<u8>,
> {
    if is_child_storage_key(key) {
        m
    } else {
        m.insert(key, value)
    }
}

/// What a deletion of `key` makes of the pairs `m`: the pair is gone, unless
/// the key is reserved, in which case nothing changes.
pub open spec fn cleared(m: Map<Seq<u8>, Seq<u8>>, key: Seq<u8>) -> Map<Seq<u8>, Seq<u8>> {
    if is_child_storage_key(key) {
        m
    } else {
        m.remove(key)
    }
}

/// The value under `key` in `m`, if there is one.
pub open spec fn lookup(m: Map<Seq<u8>, Seq<u8>>, key: Seq<u8>) -> Option<Seq<u8>> {
    if m.contains_key(key) {
        Some(m[key])
    } else {
        None
    }
}

/// No pair of `m` lies under a reserved key.
pub open spec fn free_of_child_keys(m: Map<Seq<u8>, Seq<u8>>) -> bool {
    forall|k: Seq<u8>| #[trigger] m.contains_key(k) ==> !is_child_storage_key(k)
}

/// The pairs of a fresh store: the key `:code` with an empty value.
pub open spec fn fresh_entries() -> Map<Seq<u8>, Seq<u8>> {
    Map::empty().insert(code_key(), Seq::empty())
}

/// `sp_io::TestExternalities::default()`: empty storage under the default
/// state version, into which the constructor puts the key `:code` with an
/// empty value.
#[verifier::external_body]
fn ext_new() -> (ext: Externalities)
    ensures
        entries(ext) == fresh_entries(),
{
    Externalities { inner: sp_io::TestExternalities::default() }
}

/// `sp_io::storage::get` run inside the externalities: the value under `key`,
/// or `None` where the key has no entry. Reading changes no pair. Like the
/// three calls below it is claimed not to unwind: the backend is in memory
/// and has nothing that could fail.
#[verifier::external_body]
fn ext_get(ext: &mut Externalities, key: &[u8]) -> (r: Option<Vec<u8>>)
    ensures
        entries(*final(ext)) == entries(*old(ext)),
        bytes_of(r) == lookup(entries(*old(ext)), key@),
    no_unwind
{
    ext.inner.execute_with(|| sp_io::storage::get(key).map(|b| b.to_vec()))
}

/// `sp_io::storage::set` run inside the externalities: sets `key` to `value`,
/// except that a key under the child-trie prefix is refused and left as it
/// was.
#[verifier::external_body]
fn ext_set(ext: &mut Externalities, key: &[u8], value: &[u8])
    ensures
        entries(*final(ext)) == written(entries(*old(ext)), key@, value@),
    no_unwind
{
    ext.inner.execute_with(|| sp_io::storage::set(key, value))
}

/// `sp_io::storage::clear` run inside the externalities: removes `key` and
/// its value, except that a key under the child-trie prefix is refused and
/// left as it was.
#[verifier::external_body]
fn ext_clear(ext: &mut Externalities, key: &[u8])
    ensures
        entries(*final(ext)) == cleared(entries(*old(ext)), key@),
    no_unwind
{
    ext.inner.execute_with(|| sp_io::storage::clear(key))
}

/// `sp_io::storage::exists` run inside the externalities: whether `key` has
/// an entry, whatever its value. Asking changes no pair.
#[verifier::external_body]
fn ext_exists(ext: &mut Externalities, key: &[u8]) -> (r: bool)
    ensures
        entries(*final(ext)) == entries(*old(ext)),
        r == entries(*old(ext)).contains_key(key@),
    no_unwind
{
    ext.inner.execute_with(|| sp_io::storage::exists(key))
}

/// The bytes of an optional buffer.
pub open spec fn bytes_of(o: Option<Vec<u8>>) -> Option<Seq<u8>> {
    match o {
        Some(v) => Some(v@),
        None => None,
    }
}

/// A raw key/value store. Its view is the map from keys to values; no key of
/// it lies in the reserved range of child tries.
pub struct Storage {
    ext: Externalities,
}

impl View for Storage {
    type V = Map<Seq<u8>, Seq<u8>>;

    closed spec fn view(&self) -> Map<Seq<u8>, Seq<u8>> {
        entries(self.ext)
    }
}

impl Storage {
    #[verifier::type_invariant]
    spec fn no_child_keys(self) -> bool {
        free_of_child_keys(entries(self.ext))
    }

    /// A fresh store. It holds one pair: the key `:code` with an empty value.
    pub fn new() -> (store: Storage)
        ensures
            store@ == fresh_entries(),
    {
        let ext = ext_new();
        assert(!is_child_storage_key(code_key()));
        Storage { ext }
    }

    /// The value under `key`, or `None` where the key has no entry. The
    /// store is borrowed mutably even to read, as the externalities ask.
    pub fn get(&mut self, key: &[u8]) -> (r: Option<Vec<u8>>)
        ensures
            final(self)@ == old(self)@,
            bytes_of(r) == lookup(old(self)@, key@),
    {
        proof {
            use_type_invariant(&*self);
        }
        ext_get(&mut self.ext, key)
    }

    /// Writes `value` under `key`, over any earlier value. A reserved key is
    /// refused: the store stays as it was.
    pub fn put(&mut self, key: &[u8], value: &[u8])
        ensures
            final(self)@ == written(old(self)@, key@, value@),
    {
        proof {
            use_type_invariant(&*self);
        }
        ext_set(&mut self.ext, key, value)
    }

    /// Whether `key` has an entry. The value is not looked at.
    pub fn contains(&mut self, key: &[u8]) -> (r: bool)
        ensures
            final(self)@ == old(self)@,
            r == old(self)@.contains_key(key@),
    {
        proof {
            use_type_invariant(&*self);
        }
        ext_exists(&mut self.ext, key)
    }

    /// Removes the entry under `key`, if there is one.
    pub fn kill(&mut self, key: &[u8])
        ensures
            final(self)@ == old(self)@.remove(key@),
    {
        proof {
            use_type_invariant(&*self);
        }
        ext_clear(&mut self.ext, key);
    }

    /// Reads the value under `key` and removes the entry.
    pub fn take(&mut self, key: &[u8]) -> (r: Option<Vec<u8>>)
        ensures
            final(self)@ == old(self)@.remove(key@),
            bytes_of(r) == lookup(old(self)@, key@),
    {
        let r = self.get(key);
        self.kill(key);
        r
    }
}

} // verus!
