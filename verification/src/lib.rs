//! Typed storage under hashed keys.
//!
//! A caller names a slot by a logical key and a hash strategy; the strategy
//! turns the logical key into the key that the raw store sees, and a codec
//! turns values into the bytes that the raw store keeps. On top of that sits
//! a keyed sequence: an appendable list kept in a counter slot and one slot
//! per index.

pub mod codec;
pub mod hashed;
pub mod hasher;
pub mod sequence_laws;
pub mod storage;
pub mod storage_vec;
pub mod unhashed;
