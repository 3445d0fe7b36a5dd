//! Padding of response bytes, so that the length of a response reveals only
//! a number of blocks.

use vstd::prelude::*;

verus! {

/// The byte that fills a message up to the next block boundary.
pub const PAD_BYTE: u8 = 32;

/// The number of bytes that a message of `len` bytes lacks to the next
/// multiple of `block_size`.
pub open spec fn missing_to_block(len: nat, block_size: nat) -> nat
    recommends
        block_size > 0,
{
    if len % block_size == 0 {
        0
    } else {
        (block_size - len % block_size) as nat
    }
}

/// `message` followed by as many spaces as it lacks to the next multiple of
/// `block_size`.
pub open spec fn space_padded(message: Seq<u8>, block_size: nat) -> Seq<u8>
    recommends
        block_size > 0,
{
    message + Seq::new(missing_to_block(message.len(), block_size), |i: int| PAD_BYTE)
}

/// Pads `message` with spaces at its end up to a multiple of `block_size`,
/// and hands the same buffer back.
pub fn space_pad(block_size: usize, message: &mut Vec<u8>) -> (padded: &mut Vec<u8>)
    requires
        block_size > 0,
    ensures
        final(message)@ == final(padded)@,
        padded@ == space_padded(old(message)@, block_size as nat),
{
    let len = message.len();
    let surplus = len % block_size;
    if surplus == 0 {
        return message;
    }
    let missing = block_size - surplus;
    let ghost start = message@;
    let mut added: usize = 0;
    while added < missing
        invariant
            added <= missing,
            message@ == start + Seq::new(added as nat, |i: int| PAD_BYTE),
        decreases missing - added,
    {
        message.push(PAD_BYTE);
        added = added + 1;
    }
    message
}

} // verus!
