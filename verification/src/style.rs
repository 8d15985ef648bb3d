//! Choices of the interface that do not depend on drawing: the kind of a
//! status message and the palette slot of an application's avatar.

use vstd::prelude::*;
use vstd::wrapping::u32_specs::{wrapping_add, wrapping_mul};
use vstd::string::StringSliceAdditionalSpecFns;

verus! {

/// The kind of a status message.
#[derive(Debug, Clone, Copy, PartialEq, Eq, Structural)]
pub enum StatusKind {
    Info,
    Success,
    Failure,
}

/// The number of colours of the avatar palette.
pub const PALETTE_SIZE: usize = 7;

/// The hash of a byte string: for each byte, multiply by 31 and add the
/// byte, wrapping around at 2^32.
pub open spec fn name_hash(b: Seq<u8>) -> u32
    decreases b.len(),
{
    if b.len() == 0 {
        0
    } else {
        wrapping_add(wrapping_mul(name_hash(b.drop_last()), 31), b.last() as u32)
    }
}

/// The palette slot of the avatar of an application: always the same for
/// the same name, so that each one is recognisable at a glance.
pub fn thumbnail_index(seed: &str) -> (r: usize)
    ensures
        r == name_hash(seed.spec_bytes()) % 7,
        r < PALETTE_SIZE,
{
    let bytes = seed.as_bytes();
    let mut hash: u32 = 0;
    let mut i: usize = 0;
    while i < bytes.len()
        invariant
            bytes@ == seed.spec_bytes(),
            i <= bytes.len(),
            hash == name_hash(bytes@.take(i as int)),
        decreases bytes.len() - i,
    {
        assert(bytes@.take(i + 1).drop_last() =~= bytes@.take(i as int));
        hash = hash.wrapping_mul(31).wrapping_add(bytes[i] as u32);
        i = i + 1;
    }
    assert(bytes@.take(bytes.len() as int) =~= bytes@);
    (hash % 7) as usize
}

} // verus!
