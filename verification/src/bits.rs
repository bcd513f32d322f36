//! Byte-level primitives: rotation and table lookup.

use vstd::prelude::*;

verus! {

/// `val` rotated left by `bits` positions. Only `bits` modulo 8 matters.
pub open spec fn rotated(val: u8, bits: nat) -> u8 {
    let k: u8 = (bits % 8) as u8;
    if k == 0 {
        val
    } else {
        (val << k) | (val >> ((8 - k) as u8))
    }
}

/// Rotates `val` left by `bits` positions: the bits that leave at the top come
/// back in at the bottom. Every `bits` is accepted and reduced modulo 8.
pub fn rotl(val: u8, bits: u32) -> (r: u8)
    ensures
        r == rotated(val, bits as nat),
{
    let k: u32 = bits % 8;
    if k == 0 {
        val
    } else {
        (val << k) | (val >> (8 - k))
    }
}

/// The entry of `sbox` that `val` selects.
pub fn sbox_lookup(sbox: &[u8; 256], val: u8) -> (r: u8)
    ensures
        r == sbox@[val as int],
{
    sbox[val as usize]
}

/// Bit `j` of the rotated byte is the bit of `val` that lies `bits` places
/// below it, counted cyclically.
pub proof fn rotation_moves_each_bit(val: u8, bits: nat, j: nat)
    requires
        j < 8,
    ensures
        (rotated(val, bits) >> (j as u8)) & 1 == (val >> (((j + 8 - bits % 8) % 8) as u8)) & 1,
{
    let k: u8 = (bits % 8) as u8;
    let at: u8 = j as u8;
    let from: u8 = ((j + 8 - bits % 8) % 8) as u8;
    if k == 0 {
        assert(from == at);
    } else {
        assert((((val << k) | (val >> ((8 - k) as u8))) >> at) & 1 == (val >> from) & 1)
            by (bit_vector)
            requires
                0 < k < 8,
                at < 8,
                from == (at + 8 - k) % 8,
        ;
    }
}

/// A rotation loses nothing: rotating on by what is left of a full turn gives
/// the byte back, and a full turn more changes nothing.
pub proof fn rotation_undone(val: u8, bits: nat)
    ensures
        rotated(rotated(val, bits), (8 - bits % 8) as nat) == val,
        rotated(val, bits + 8) == rotated(val, bits),
        rotated(val, 0) == val,
{
    let k: u8 = (bits % 8) as u8;
    assert((bits + 8) % 8 == bits % 8);
    if k != 0 {
        let back: u8 = (8 - k) as u8;
        assert(((8 - bits % 8) as nat) % 8 == back);
        assert({
            let once = (val << k) | (val >> ((8 - k) as u8));
            ((once << back) | (once >> ((8 - back) as u8))) == val
        }) by (bit_vector)
            requires
                0 < k < 8,
                back == 8 - k,
        ;
    }
}

} // verus!
