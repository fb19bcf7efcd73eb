//! Bit manipulation on register values.
use vstd::prelude::*;

verus! {

/// `val` with bit `bit` set when `state` holds and cleared otherwise; the
/// other bits stay.
pub fn set_bit(val: u32, bit: u8, state: bool) -> (r: u32)
    requires
        bit < 32,
    ensures
        forall|i: u32|
            #![trigger (r >> i) & 1]
            i < 32 ==> ((r >> i) & 1 == 1) == if i == bit as u32 {
                state
            } else {
                (val >> i) & 1 == 1
            },
{
    let b = bit as u32;
    let mask: u32 = 1u32 << b;
    let r = if state {
        val | mask
    } else {
        val & !mask
    };
    assert(forall|i: u32|
        #![trigger (r >> i) & 1]
        i < 32 ==> ((r >> i) & 1 == 1) == if i == b {
            state
        } else {
            (val >> i) & 1 == 1
        }) by (bit_vector)
        requires
            b < 32,
            mask == 1u32 << b,
            r == if state {
                val | mask
            } else {
                val & !mask
            },
    ;
    r
}

} // verus!
