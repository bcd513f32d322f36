//! The closing pass, applied once after the last round.

use vstd::prelude::*;
use crate::bits::{rotated, rotl, sbox_lookup};

verus! {

/// What the closing pass makes of accumulator byte `s` next to block byte `b`:
/// XOR with `b`, a rotation by the table entry of the result (modulo 8), then
/// plus `b`, times 3, XOR `b`, all wrapping.
pub open spec fn finished_byte(s: u8, b: u8, table: Seq<u8>) -> u8 {
    let joined = s ^ b;
    let turned = rotated(joined, (table[joined as int] % 8) as nat);
    turned.wrapping_add(b).wrapping_mul(3) ^ b
}

/// The accumulator after the closing pass. Each position depends on its own
/// byte only, so the order of the positions does not matter here.
pub open spec fn finished(acc: Seq<u8>, block: Seq<u8>, table: Seq<u8>) -> Seq<u8> {
    Seq::new(64, |i: int| finished_byte(acc[i], block[i], table))
}

/// Applies the closing pass to `state`.
pub fn end_mix(state: &mut [u8; 64], block: &[u8; 64], sbox: &[u8; 256])
    ensures
        final(state)@ == finished(old(state)@, block@, sbox@),
{
    let mut i: usize = 0;
    while i < 64
        invariant
            i <= 64,
            forall|k: int|
                0 <= k < i ==> state@[k] == finished_byte(old(state)@[k], block@[k], sbox@),
            forall|k: int| i <= k < 64 ==> state@[k] == old(state)@[k],
        decreases 64 - i,
    {
        let b: u8 = block[i];
        state[i] ^= b;
        state[i] = rotl(state[i], sbox_lookup(sbox, state[i]) as u32);
        state[i] = state[i].wrapping_add(b).wrapping_mul(3) ^ b;
        i += 1;
    }
    assert(state@ =~= finished(old(state)@, block@, sbox@));
}

} // verus!
