use vstd::prelude::*;

verus! {

/// Key of object `id` in a namespace: the prefix plus the id shifted past it,
/// then the postfix in the three remaining slots.
pub open spec fn object_key(prefix: u64, postfix: u64, id: u64) -> [u64; 4] {
    [(prefix + (id << 16u64)) as u64, postfix, postfix, postfix]
}

/// Computes `object_key` for a prefix that fits in the sixteen bits the shift leaves free.
pub fn object_key_of(prefix: u64, postfix: u64, id: u64) -> (r: [u64; 4])
    requires
        prefix < 0x10000,
    ensures
        r == object_key(prefix, postfix, id),
{
    let shifted: u64 = id << 16u64;
    assert(shifted <= 0xffff_ffff_ffff_0000u64) by (bit_vector)
        requires
            shifted == id << 16u64,
    ;
    [prefix + shifted, postfix, postfix, postfix]
}

} // verus!
