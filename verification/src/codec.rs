//! Storable values: what a value looks like as bytes, and back.
//!
//! The byte layout is stated arithmetically: an integer of `w` bytes is its
//! base-256 digits, least significant first.

use vstd::prelude::*;

verus! {

/// The `width` least significant base-256 digits of `x`, lowest first.
pub open spec fn le_bytes(x: nat, width: nat) -> Seq<u8>
    decreases width,
{
    if width == 0 {
        Seq::empty()
    } else {
        seq![(x % 256) as u8] + le_bytes(x / 256, (width - 1) as nat)
    }
}

/// The number whose base-256 digits, lowest first, are `s`.
pub open spec fn le_value(s: Seq<u8>) -> nat
    decreases s.len(),
{
    if s.len() == 0 {
        0
    } else {
        s[0] as nat + 256 * le_value(s.skip(1))
    }
}

/// `256` to the power `width`: the number of values that `width` bytes hold.
pub open spec fn radix(width: nat) -> nat
    decreases width,
{
    if width == 0 {
        1
    } else {
        256 * radix((width - 1) as nat)
    }
}

/// `le_bytes(x, width)` has `width` bytes.
pub proof fn lemma_le_bytes_len(x: nat, width: nat)
    ensures
        le_bytes(x, width).len() == width,
    decreases width,
{
    if width > 0 {
        lemma_le_bytes_len(x / 256, (width - 1) as nat);
    }
}

/// A number that fits in `width` bytes is read back from its bytes.
pub proof fn lemma_le_value_of_bytes(x: nat, width: nat)
    requires
        x < radix(width),
    ensures
        le_value(le_bytes(x, width)) == x,
    decreases width,
{
    if width > 0 {
        let rest = le_bytes(x / 256, (width - 1) as nat);
        let s = le_bytes(x, width);
        lemma_le_bytes_len(x, width);
        lemma_le_value_of_bytes(x / 256, (width - 1) as nat);
        assert(s.skip(1) =~= rest);
    }
}

/// Bytes are written back from the number they hold.
pub proof fn lemma_le_bytes_of_value(s: Seq<u8>)
    ensures
        le_value(s) < radix(s.len()),
        le_bytes(le_value(s), s.len()) == s,
    decreases s.len(),
{
    if s.len() > 0 {
        lemma_le_bytes_of_value(s.skip(1));
    }
}

/// The widths that occur: 1, 2, 4 and 8 bytes.
pub proof fn lemma_radix_values()
    ensures
        radix(1) == 0x100,
        radix(2) == 0x1_0000,
        radix(4) == 0x1_0000_0000,
        radix(8) == 0x1_0000_0000_0000_0000,
{
    reveal_with_fuel(radix, 9);
}

/// The value of an optional exec value.
pub open spec fn value_of<T: View>(o: Option<T>) -> Option<T::V> {
    match o {
        Some(v) => Some(v@),
        None => None,
    }
}

/// A type whose values can be kept in storage: it has a byte encoding that
/// decodes back to the value, and a default that stands in for an absent
/// entry.
pub trait Storable: View + Sized {
    /// Whether `v` has an encoding. Every value has one, except a collection
    /// too long for its length prefix.
    spec fn encodable(v: Self::V) -> bool;

    /// The bytes that stand for `v`.
    spec fn spec_encode(v: Self::V) -> Seq<u8>;

    /// The value at the front of `bytes`, or `None` where they hold none.
    /// Bytes after the value are not looked at.
    spec fn spec_decode(bytes: Seq<u8>) -> Option<Self::V>;

    /// The value that an absent entry reads as.
    spec fn spec_default() -> Self::V;

    /// Decoding the encoding of a value gives the value back.
    proof fn lemma_round_trip(v: Self::V)
        requires
            Self::encodable(v),
        ensures
            Self::spec_decode(Self::spec_encode(v)) == Some(v),
    ;

    /// Tells whether the value has an encoding, for callers that cannot
    /// prove it.
    fn is_encodable(&self) -> (r: bool)
        ensures
            r == Self::encodable(self@),
    ;

    /// Encodes the value.
    fn encode(&self) -> (r: Vec<u8>)
        requires
            Self::encodable(self@),
        ensures
            r@ == Self::spec_encode(self@),
    ;

    /// Decodes a value from the front of `bytes`.
    fn decode(bytes: &[u8]) -> (r: Option<Self>)
        ensures
            value_of(r) == Self::spec_decode(bytes@),
    ;

    /// The default value.
    fn default_value() -> (r: Self)
        ensures
            r@ == Self::spec_default(),
    ;
}

/// The codec's error. Nothing of it is read: a failed decoding counts as an
/// absent value.
#[verifier::external_type_specification]
#[verifier::external_body]
pub struct ExCodecError(parity_scale_codec::Error);

/// What the codec reads as a `u32`: four bytes, least significant first.
pub open spec fn decoded_u32(bytes: Seq<u8>) -> Option<u32> {
    if bytes.len() >= 4 {
        Some(le_value(bytes.take(4)) as u32)
    } else {
        None
    }
}

/// The number that stands for `v` in two's complement on eight bytes.
pub open spec fn twos_complement(v: i64) -> nat {
    if v >= 0 {
        v as nat
    } else {
        (v + 0x1_0000_0000_0000_0000) as nat
    }
}

/// The inverse of [`twos_complement`].
pub open spec fn from_twos_complement(n: nat) -> i64 {
    if n < 0x8000_0000_0000_0000 {
        n as i64
    } else {
        (n - 0x1_0000_0000_0000_0000) as i64
    }
}

/// What the codec reads as an `i64`: eight bytes in two's complement, least
/// significant first.
pub open spec fn decoded_i64(bytes: Seq<u8>) -> Option<i64> {
    if bytes.len() >= 8 {
        Some(from_twos_complement(le_value(bytes.take(8))))
    } else {
        None
    }
}

/// What the codec reads as a `bool`: one byte, 0 or 1.
pub open spec fn decoded_bool(bytes: Seq<u8>) -> Option<bool> {
    if bytes.len() >= 1 && bytes[0] == 0 {
        Some(false)
    } else if bytes.len() >= 1 && bytes[0] == 1 {
        Some(true)
    } else {
        None
    }
}

/// The compact length prefix of a collection of `n` items, `n` below
/// `2^32`: one, two, four or five bytes, the two lowest bits of the first
/// byte telling which.
pub open spec fn compact_len(n: nat) -> Seq<u8> {
    if n < 0x40 {
        le_bytes(4 * n, 1)
    } else if n < 0x4000 {
        le_bytes(4 * n + 1, 2)
    } else if n < 0x4000_0000 {
        le_bytes(4 * n + 2, 4)
    } else {
        seq![3u8] + le_bytes(n, 4)
    }
}

/// The length that a compact prefix at the front of `bytes` gives, and the
/// number of bytes that the prefix takes. A length written in more bytes
/// than it needs is refused.
pub open spec fn compact_read(bytes: Seq<u8>) -> Option<(nat, nat)> {
    if bytes.len() == 0 {
        None
    } else if bytes[0] % 4 == 0 {
        Some(((bytes[0] / 4) as nat, 1))
    } else if bytes[0] % 4 == 1 {
        if bytes.len() >= 2 && le_value(bytes.take(2)) / 4 >= 0x40 {
            Some((le_value(bytes.take(2)) / 4, 2))
        } else {
            None
        }
    } else if bytes[0] % 4 == 2 {
        if bytes.len() >= 4 && le_value(bytes.take(4)) / 4 >= 0x4000 {
            Some((le_value(bytes.take(4)) / 4, 4))
        } else {
            None
        }
    } else {
        if bytes[0] == 3 && bytes.len() >= 5 && le_value(bytes.subrange(1, 5)) >= 0x4000_0000 {
            Some((le_value(bytes.subrange(1, 5)), 5))
        } else {
            None
        }
    }
}

/// The bytes that stand for a byte string: its compact length, then the
/// bytes themselves.
pub open spec fn encoded_bytes(v: Seq<u8>) -> Seq<u8> {
    compact_len(v.len()) + v
}

/// What the codec reads as a byte string: a compact length, then that many
/// bytes.
pub open spec fn decoded_bytes(bytes: Seq<u8>) -> Option<Seq<u8>> {
    match compact_read(bytes) {
        Some((n, header)) => if bytes.len() - header >= n {
            Some(bytes.skip(header as int).take(n as int))
        } else {
            None
        },
        None => None,
    }
}

/// Decoding reads the length prefix of an encoded byte string back.
pub proof fn lemma_compact_round_trip(n: nat, tail: Seq<u8>)
    requires
        n < 0x1_0000_0000,
    ensures
        compact_read(compact_len(n) + tail) == Some((n, compact_len(n).len())),
{
    let head = compact_len(n);
    let bytes = head + tail;
    lemma_radix_values();
    if n < 0x40 {
        lemma_le_bytes_len(4 * n, 1);
    } else if n < 0x4000 {
        lemma_le_bytes_len(4 * n + 1, 2);
        lemma_le_value_of_bytes(4 * n + 1, 2);
        assert(bytes.take(2) =~= head);
    } else if n < 0x4000_0000 {
        lemma_le_bytes_len(4 * n + 2, 4);
        lemma_le_value_of_bytes(4 * n + 2, 4);
        assert(bytes.take(4) =~= head);
    } else {
        lemma_le_bytes_len(n, 4);
        lemma_le_value_of_bytes(n, 4);
        assert(bytes.subrange(1, 5) =~= le_bytes(n, 4));
    }
}

/// `<u32 as Encode>::encode` of `parity_scale_codec`: the four bytes of
/// `to_le_bytes`.
#[verifier::external_body]
fn scale_encode_u32(v: u32) -> (r: Vec<u8>)
    ensures
        r@ == le_bytes(v as nat, 4),
{
    parity_scale_codec::Encode::encode(&v)
}

/// `<u32 as Decode>::decode` of `parity_scale_codec` on a byte slice: reads
/// four bytes with `from_le_bytes`; fails where fewer are there.
#[verifier::external_body]
fn scale_decode_u32(bytes: &[u8]) -> (r: Result<u32, parity_scale_codec::Error>)
    ensures
        r is Ok <==> decoded_u32(bytes@) is Some,
        r matches Ok(v) ==> decoded_u32(bytes@) == Some(v),
{
    let mut input = bytes;
    parity_scale_codec::Decode::decode(&mut input)
}

/// `<i64 as Encode>::encode` of `parity_scale_codec`: the eight bytes of
/// `to_le_bytes`.
#[verifier::external_body]
fn scale_encode_i64(v: i64) -> (r: Vec<u8>)
    ensures
        r@ == le_bytes(twos_complement(v), 8),
{
    parity_scale_codec::Encode::encode(&v)
}

/// `<i64 as Decode>::decode` of `parity_scale_codec` on a byte slice: reads
/// eight bytes with `from_le_bytes`; fails where fewer are there.
#[verifier::external_body]
fn scale_decode_i64(bytes: &[u8]) -> (r: Result<i64, parity_scale_codec::Error>)
    ensures
        r is Ok <==> decoded_i64(bytes@) is Some,
        r matches Ok(v) ==> decoded_i64(bytes@) == Some(v),
{
    let mut input = bytes;
    parity_scale_codec::Decode::decode(&mut input)
}

/// `<bool as Encode>::encode` of `parity_scale_codec`: one byte, 1 for
/// `true` and 0 for `false`.
#[verifier::external_body]
fn scale_encode_bool(v: bool) -> (r: Vec<u8>)
    ensures
        r@ == seq![if v { 1u8 } else { 0u8 }],
{
    parity_scale_codec::Encode::encode(&v)
}

/// `<bool as Decode>::decode` of `parity_scale_codec` on a byte slice: reads
/// one byte; fails where none is there or where it is neither 0 nor 1.
#[verifier::external_body]
fn scale_decode_bool(bytes: &[u8]) -> (r: Result<bool, parity_scale_codec::Error>)
    ensures
        r is Ok <==> decoded_bool(bytes@) is Some,
        r matches Ok(v) ==> decoded_bool(bytes@) == Some(v),
{
    let mut input = bytes;
    parity_scale_codec::Decode::decode(&mut input)
}

/// `<Vec<u8> as Encode>::encode` of `parity_scale_codec`: the compact
/// encoding of the length, then the bytes. The codec panics on a length above
/// `u32::MAX`.
#[verifier::external_body]
fn scale_encode_bytes(v: &Vec<u8>) -> (r: Vec<u8>)
    requires
        v@.len() <= u32::MAX,
    ensures
        r@ == encoded_bytes(v@),
{
    parity_scale_codec::Encode::encode(v)
}

/// `<Vec<u8> as Decode>::decode` of `parity_scale_codec` on a byte slice:
/// reads a compact `u32` length, then that many bytes; fails where the
/// prefix is cut short or not in its shortest form, or where fewer bytes
/// follow than it announces.
#[verifier::external_body]
fn scale_decode_bytes(bytes: &[u8]) -> (r: Result<Vec<u8>, parity_scale_codec::Error>)
    ensures
        r is Ok <==> decoded_bytes(bytes@) is Some,
        r matches Ok(v) ==> decoded_bytes(bytes@) == Some(v@),
{
    let mut input = bytes;
    parity_scale_codec::Decode::decode(&mut input)
}

/// `KeyedVec::to_keyed_vec` of `parity_scale_codec` on a `u32`: the prefix,
/// then the encoding of the number.
#[verifier::external_body]
pub(crate) fn keyed_index(index: u32, prefix: &[u8]) -> (r: Vec<u8>)
    ensures
        r@ == prefix@ + le_bytes(index as nat, 4),
{
    parity_scale_codec::KeyedVec::to_keyed_vec(&index, prefix)
}

/// `KeyedVec::to_keyed_vec` of `parity_scale_codec` on an array of three
/// bytes: the prefix, then the three bytes as they are (an array is encoded
/// without a length).
#[verifier::external_body]
pub(crate) fn keyed_tag(tag: &[u8; 3], prefix: &[u8]) -> (r: Vec<u8>)
    ensures
        r@ == prefix@ + tag@,
{
    parity_scale_codec::KeyedVec::to_keyed_vec(tag, prefix)
}

impl Storable for u32 {
    open spec fn encodable(v: u32) -> bool {
        true
    }

    open spec fn spec_encode(v: u32) -> Seq<u8> {
        le_bytes(v as nat, 4)
    }

    open spec fn spec_decode(bytes: Seq<u8>) -> Option<u32> {
        decoded_u32(bytes)
    }

    open spec fn spec_default() -> u32 {
        0
    }

    proof fn lemma_round_trip(v: u32) {
        let bytes = le_bytes(v as nat, 4);
        lemma_radix_values();
        lemma_le_bytes_len(v as nat, 4);
        lemma_le_value_of_bytes(v as nat, 4);
        assert(bytes.take(4) =~= bytes);
    }

    fn is_encodable(&self) -> (r: bool) {
        true
    }

    fn encode(&self) -> (r: Vec<u8>) {
        scale_encode_u32(*self)
    }

    fn decode(bytes: &[u8]) -> (r: Option<u32>) {
        scale_decode_u32(bytes).ok()
    }

    fn default_value() -> (r: u32) {
        0
    }
}

impl Storable for i64 {
    open spec fn encodable(v: i64) -> bool {
        true
    }

    open spec fn spec_encode(v: i64) -> Seq<u8> {
        le_bytes(twos_complement(v), 8)
    }

    open spec fn spec_decode(bytes: Seq<u8>) -> Option<i64> {
        decoded_i64(bytes)
    }

    open spec fn spec_default() -> i64 {
        0
    }

    proof fn lemma_round_trip(v: i64) {
        let bytes = le_bytes(twos_complement(v), 8);
        lemma_radix_values();
        lemma_le_bytes_len(twos_complement(v), 8);
        lemma_le_value_of_bytes(twos_complement(v), 8);
        assert(bytes.take(8) =~= bytes);
    }

    fn is_encodable(&self) -> (r: bool) {
        true
    }

    fn encode(&self) -> (r: Vec<u8>) {
        scale_encode_i64(*self)
    }

    fn decode(bytes: &[u8]) -> (r: Option<i64>) {
        scale_decode_i64(bytes).ok()
    }

    fn default_value() -> (r: i64) {
        0
    }
}

impl Storable for bool {
    open spec fn encodable(v: bool) -> bool {
        true
    }

    open spec fn spec_encode(v: bool) -> Seq<u8> {
        seq![if v { 1u8 } else { 0u8 }]
    }

    open spec fn spec_decode(bytes: Seq<u8>) -> Option<bool> {
        decoded_bool(bytes)
    }

    open spec fn spec_default() -> bool {
        false
    }

    proof fn lemma_round_trip(v: bool) {
    }

    fn is_encodable(&self) -> (r: bool) {
        true
    }

    fn encode(&self) -> (r: Vec<u8>) {
        scale_encode_bool(*self)
    }

    fn decode(bytes: &[u8]) -> (r: Option<bool>) {
        scale_decode_bool(bytes).ok()
    }

    fn default_value() -> (r: bool) {
        false
    }
}

impl Storable for Vec<u8> {
    open spec fn encodable(v: Seq<u8>) -> bool {
        v.len() <= u32::MAX
    }

    open spec fn spec_encode(v: Seq<u8>) -> Seq<u8> {
        encoded_bytes(v)
    }

    open spec fn spec_decode(bytes: Seq<u8>) -> Option<Seq<u8>> {
        decoded_bytes(bytes)
    }

    open spec fn spec_default() -> Seq<u8> {
        Seq::empty()
    }

    proof fn lemma_round_trip(v: Seq<u8>) {
        let head = compact_len(v.len());
        lemma_compact_round_trip(v.len(), v);
    }

    fn is_encodable(&self) -> (r: bool) {
        self.len() <= 0xffff_ffff
    }

    fn encode(&self) -> (r: Vec<u8>) {
        scale_encode_bytes(self)
    }

    fn decode(bytes: &[u8]) -> (r: Option<Vec<u8>>) {
        scale_decode_bytes(bytes).ok()
    }

    fn default_value() -> (r: Vec<u8>) {
        Vec::new()
    }
}

} // verus!
