//! The keys under which the ledger persists its records.
//!
//! There are two key spaces. The counter of an identity is kept under the
//! bytes of the identity. The order that an identity holds at a position is
//! kept under the bytes of the identity followed by the sixteen bytes of the
//! position, least significant byte first.

use vstd::prelude::*;
use vstd::bytes::{
    lemma_auto_spec_u128_to_from_le_bytes, spec_u128_from_le_bytes, spec_u128_to_le_bytes,
    u128_from_le_bytes, u128_to_le_bytes,
};
use vstd::slice::slice_subrange;
use crate::bytes::copy_bytes;

verus! {

/// The key of the order that `address` holds at `position`.
pub open spec fn spec_order_key(address: Seq<u8>, position: u128) -> Seq<u8> {
    address + spec_u128_to_le_bytes(position)
}

/// The key of the order that `address` holds at `position`.
pub fn order_key(address: &Vec<u8>, position: u128) -> (key: Vec<u8>)
    ensures
        key@ == spec_order_key(address@, position),
{
    let mut key = copy_bytes(address);
    let tail = u128_to_le_bytes(position);
    proof {
        lemma_auto_spec_u128_to_from_le_bytes();
    }
    let mut i: usize = 0;
    while i < tail.len()
        invariant
            i <= tail.len(),
            key@ == address@ + tail@.subrange(0, i as int),
        decreases tail.len() - i,
    {
        key.push(tail[i]);
        i = i + 1;
    }
    key
}

/// No two orders share a key: the key tells both the holder and the position.
pub proof fn lemma_order_key_injective(a1: Seq<u8>, p1: u128, a2: Seq<u8>, p2: u128)
    ensures
        spec_order_key(a1, p1) == spec_order_key(a2, p2) <==> a1 == a2 && p1 == p2,
{
    lemma_auto_spec_u128_to_from_le_bytes();
    if spec_order_key(a1, p1) == spec_order_key(a2, p2) {
        let k1 = spec_order_key(a1, p1);
        let k2 = spec_order_key(a2, p2);
        let t1 = spec_u128_to_le_bytes(p1);
        let t2 = spec_u128_to_le_bytes(p2);
        assert(a1 =~= k1.subrange(0, a1.len() as int));
        assert(a2 =~= k2.subrange(0, a2.len() as int));
        assert(t1 =~= k1.subrange(a1.len() as int, k1.len() as int));
        assert(t2 =~= k2.subrange(a2.len() as int, k2.len() as int));
    }
}

/// The number of bytes that a position takes at the end of a key.
pub const POSITION_BYTES: usize = 16;

/// Reads a key back: the holder and the position of the order that is kept
/// under `key`. A key of fewer bytes than a position takes belongs to no
/// order.
pub fn split_order_key(key: &Vec<u8>) -> (filed: Option<(Vec<u8>, u128)>)
    ensures
        match filed {
            Some((address, position)) => key@ == spec_order_key(address@, position),
            None => forall|address: Seq<u8>, position: u128|
                key@ != spec_order_key(address, position),
        },
{
    proof {
        lemma_auto_spec_u128_to_from_le_bytes();
    }
    if key.len() < POSITION_BYTES {
        return None;
    }
    let cut = key.len() - POSITION_BYTES;
    let mut address: Vec<u8> = Vec::new();
    let mut i: usize = 0;
    while i < cut
        invariant
            i <= cut <= key.len(),
            address@ == key@.subrange(0, i as int),
        decreases cut - i,
    {
        address.push(key[i]);
        i = i + 1;
    }
    let tail = slice_subrange(key.as_slice(), cut, key.len());
    let position = u128_from_le_bytes(tail);
    Some((address, position))
}

} // verus!
