//! Choice of a device memory type for an allocation.

use vstd::prelude::*;

verus! {

/// Whether memory type `i`, with property flags `flags`, is allowed by the
/// resource's `type_bits` and has every property in `required`.
pub open spec fn memory_type_fits(type_bits: u32, flags: u32, required: u32, i: u32) -> bool {
    (type_bits & (1u32 << i)) != 0 && (flags & required) == required
}

/// The first memory type, in the device's order, that the resource allows
/// and that has the required properties; `flags[i]` are the property flags
/// of memory type `i` (a device has at most 32).
pub fn find_memory_type(type_bits: u32, flags: &[u32], required: u32) -> (r: Option<u32>)
    requires
        flags@.len() <= 32,
    ensures
        match r {
            Some(i) => i < flags@.len() && memory_type_fits(type_bits, flags@[i as int], required, i) && forall|
                j: u32,
            | j < i ==> !#[trigger] memory_type_fits(type_bits, flags@[j as int], required, j),
            None => forall|j: u32| j < flags@.len() ==> !#[trigger] memory_type_fits(type_bits, flags@[j as int], required, j),
        },
{
    let count = flags.len() as u32;
    let mut i: u32 = 0;
    while i < count
        invariant
            i <= count,
            count == flags@.len() <= 32,
            forall|j: u32| j < i ==> !#[trigger] memory_type_fits(type_bits, flags@[j as int], required, j),
        decreases count - i,
    {
        let supported = type_bits & (1u32 << i) != 0;
        let f = flags[i as usize];
        if supported && (f & required) == required {
            return Some(i);
        }
        i = i + 1;
    }
    None
}

} // verus!
