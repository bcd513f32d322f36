//! One round: four passes over the 64 accumulator bytes, each in ascending
//! order and in place. A pass that reads a neighbour reads what that position
//! holds at that moment, so the order of the positions is part of the result.

use vstd::prelude::*;
use crate::bits::{rotated, rotl, sbox_lookup};
use crate::table::cyclic;

verus! {

/// How many input bytes index the block and the accumulator: the input length,
/// capped at 64.
pub open spec fn span(bytes: Seq<u8>) -> int {
    if bytes.len() < 64 {
        bytes.len() as int
    } else {
        64
    }
}

/// What position `k` holds while position `i` of `acc` is being rewritten and
/// holds `cur` for the moment.
pub open spec fn live(acc: Seq<u8>, i: int, cur: u8, k: int) -> u8 {
    if k == i {
        cur
    } else {
        acc[k]
    }
}

/// The block position chosen by `key`: (`i` mod `len`) XOR (`len` times
/// `key`), modulo 64.
pub open spec fn keyed_index(i: int, len: int, key: u8) -> int {
    ((((i % len) as u64) ^ ((len * key) as u64)) % 64) as int
}

/// What the first pass writes at position `i` of `acc`. In order: XOR with
/// the mirror position `63 - i` rotated by 7; times 0x9E plus the byte at
/// position `i` mod 8; XOR with block byte `(i + 4)` mod `len` rotated by 3; a
/// rotation by (block byte + table byte) mod 8 at the index keyed by position
/// `i` mod `len`; XOR with the byte seven places on rotated by 3; and the
/// table entry of the result.
pub open spec fn diffused_byte(
    acc: Seq<u8>,
    block: Seq<u8>,
    table: Seq<u8>,
    len: int,
    i: int,
) -> u8 {
    let mirrored = acc[i] ^ rotated(acc[63 - i], 7);
    let scaled = mirrored.wrapping_mul(0x9E).wrapping_add(live(acc, i, mirrored, i % 8));
    let keyed = scaled ^ rotated(block[(i + 4) % len], 3);
    let idx = keyed_index(i, len, live(acc, i, keyed, i % len));
    let turned = rotated(keyed, ((block[idx] + table[idx]) % 8) as nat);
    let chained = turned ^ rotated(acc[(i + 7) % 64], 3);
    table[chained as int]
}

/// The accumulator once the first pass has rewritten positions `0..n`.
pub open spec fn diffused_to(
    acc: Seq<u8>,
    block: Seq<u8>,
    table: Seq<u8>,
    len: int,
    n: nat,
) -> Seq<u8>
    decreases n,
{
    if n == 0 {
        acc
    } else {
        let before = diffused_to(acc, block, table, len, (n - 1) as nat);
        before.update(n - 1, diffused_byte(before, block, table, len, n - 1))
    }
}

/// The accumulator once the second pass has rewritten positions `0..n`: each
/// byte is XORed with the byte three places on, cyclically.
pub open spec fn crossed_to(acc: Seq<u8>, n: nat) -> Seq<u8>
    decreases n,
{
    if n == 0 {
        acc
    } else {
        let i = n - 1;
        let before = crossed_to(acc, i as nat);
        before.update(i, before[i] ^ before[(i + 3) % 64])
    }
}

/// The salt before the third pass starts.
pub open spec fn first_salt(bytes: Seq<u8>, table: Seq<u8>) -> u8 {
    rotated(
        bytes.first().wrapping_add(
            bytes.last().wrapping_mul(table[(bytes.len() - 1) % 256]),
        ),
        3,
    )
}

/// The salt once the third pass has handled positions `0..n`. It is carried
/// from one position to the next.
pub open spec fn salt_after(bytes: Seq<u8>, table: Seq<u8>, n: nat) -> u8
    decreases n,
{
    if n == 0 {
        first_salt(bytes, table)
    } else {
        let salt = salt_after(bytes, table, (n - 1) as nat);
        salt ^ salt.wrapping_mul(cyclic(bytes, n - 1 + bytes.len() - 1))
    }
}

/// The accumulator after the third pass: position `i` is XORed with the salt
/// of that position, rotated by `i` mod 8.
pub open spec fn salted(acc: Seq<u8>, bytes: Seq<u8>, table: Seq<u8>) -> Seq<u8> {
    Seq::new(
        64,
        |i: int| acc[i] ^ rotated(salt_after(bytes, table, (i + 1) as nat), (i % 8) as nat),
    )
}

/// What the fourth pass writes at position `i` of `acc`. In order: XOR with
/// the byte three places on; plus the byte five places on, times the byte
/// three places on, rotated by 5; a rotation by 1 to 8, block byte mod 8 plus
/// 1, at the index keyed by position `(i + 3)` mod `len`; and XOR with the
/// byte four places on rotated by 4.
pub open spec fn closed_byte(acc: Seq<u8>, block: Seq<u8>, len: int, i: int) -> u8 {
    let near = acc[(i + 3) % 64];
    let mixed = rotated((acc[i] ^ near).wrapping_add(acc[(i + 5) % 64]).wrapping_mul(near), 5);
    let idx = keyed_index(i, len, live(acc, i, mixed, (i + 3) % len));
    let turned = rotated(mixed, ((block[idx] % 8) + 1) as nat);
    turned ^ rotated(acc[(i + 4) % 64], 4)
}

/// The accumulator once the fourth pass has rewritten positions `0..n`.
pub open spec fn closed_to(acc: Seq<u8>, block: Seq<u8>, len: int, n: nat) -> Seq<u8>
    decreases n,
{
    if n == 0 {
        acc
    } else {
        let before = closed_to(acc, block, len, (n - 1) as nat);
        before.update(n - 1, closed_byte(before, block, len, n - 1))
    }
}

/// The accumulator after one whole round.
pub open spec fn round_of(
    acc: Seq<u8>,
    block: Seq<u8>,
    table: Seq<u8>,
    bytes: Seq<u8>,
) -> Seq<u8> {
    let len = span(bytes);
    let first = diffused_to(acc, block, table, len, 64);
    let second = crossed_to(first, 64);
    let third = salted(second, bytes, table);
    closed_to(third, block, len, 64)
}

/// The accumulator after `n` rounds, each working on what the one before left.
pub open spec fn rounds_of(
    acc: Seq<u8>,
    block: Seq<u8>,
    table: Seq<u8>,
    bytes: Seq<u8>,
    n: nat,
) -> Seq<u8>
    decreases n,
{
    if n == 0 {
        acc
    } else {
        round_of(rounds_of(acc, block, table, bytes, (n - 1) as nat), block, table, bytes)
    }
}

/// What the second pass has made of position `k`, seen from the accumulator it
/// started on. A position below 61 meets a neighbour that is still untouched;
/// the last three meet one that the pass has rewritten already.
pub open spec fn crossed_byte(acc: Seq<u8>, k: int) -> u8 {
    if k < 61 {
        acc[k] ^ acc[k + 3]
    } else {
        acc[k] ^ (acc[k - 61] ^ acc[k - 58])
    }
}

/// The shape of the accumulator while the second pass is under way.
proof fn crossed_prefix_shape(acc: Seq<u8>, n: nat)
    requires
        acc.len() == 64,
        n <= 64,
    ensures
        crossed_to(acc, n).len() == 64,
        forall|k: int| 0 <= k < n ==> crossed_to(acc, n)[k] == crossed_byte(acc, k),
        forall|k: int| n <= k < 64 ==> crossed_to(acc, n)[k] == acc[k],
    decreases n,
{
    if n > 0 {
        let i = n - 1;
        let before = crossed_to(acc, i as nat);
        crossed_prefix_shape(acc, i as nat);
        if i >= 61 {
            assert(before[i - 61] == crossed_byte(acc, i - 61));
        }
    }
}

/// The second pass in closed form. Its last three positions show that the
/// order of the positions matters: they read what the pass wrote at its start.
pub proof fn cross_mix_in_closed_form(acc: Seq<u8>)
    requires
        acc.len() == 64,
    ensures
        crossed_to(acc, 64) == Seq::new(64, |k: int| crossed_byte(acc, k)),
{
    crossed_prefix_shape(acc, 64);
    assert(crossed_to(acc, 64) =~= Seq::new(64, |k: int| crossed_byte(acc, k)));
}

/// The first pass keeps the accumulator at 64 bytes.
proof fn diffused_keeps_length(acc: Seq<u8>, block: Seq<u8>, table: Seq<u8>, len: int, n: nat)
    requires
        acc.len() == 64,
        n <= 64,
    ensures
        diffused_to(acc, block, table, len, n).len() == 64,
    decreases n,
{
    if n > 0 {
        diffused_keeps_length(acc, block, table, len, (n - 1) as nat);
    }
}

/// The fourth pass keeps the accumulator at 64 bytes.
proof fn closed_keeps_length(acc: Seq<u8>, block: Seq<u8>, len: int, n: nat)
    requires
        acc.len() == 64,
        n <= 64,
    ensures
        closed_to(acc, block, len, n).len() == 64,
    decreases n,
{
    if n > 0 {
        closed_keeps_length(acc, block, len, (n - 1) as nat);
    }
}

/// Rounds keep the accumulator at 64 bytes, however many are applied.
pub proof fn rounds_keep_length(
    acc: Seq<u8>,
    block: Seq<u8>,
    table: Seq<u8>,
    bytes: Seq<u8>,
    n: nat,
)
    requires
        acc.len() == 64,
    ensures
        round_of(acc, block, table, bytes).len() == 64,
        rounds_of(acc, block, table, bytes, n).len() == 64,
    decreases n,
{
    let len = span(bytes);
    diffused_keeps_length(acc, block, table, len, 64);
    closed_keeps_length(
        salted(crossed_to(diffused_to(acc, block, table, len, 64), 64), bytes, table),
        block,
        len,
        64,
    );
    if n > 0 {
        let before = rounds_of(acc, block, table, bytes, (n - 1) as nat);
        rounds_keep_length(acc, block, table, bytes, (n - 1) as nat);
        rounds_keep_length(before, block, table, bytes, 0);
    }
}

/// The product of the span and a byte fits any index type.
proof fn key_product_is_small(len: usize, key: u8)
    by (nonlinear_arith)
    requires
        len <= 64,
    ensures
        0 <= len * key <= 16320,
{
}

/// First pass: substitution and diffusion. `len` is the span of the input.
pub fn diffuse(state: &mut [u8; 64], block: &[u8; 64], sbox: &[u8; 256], len: usize)
    requires
        1 <= len <= 64,
    ensures
        final(state)@ == diffused_to(old(state)@, block@, sbox@, len as int, 64),
{
    let mut i: usize = 0;
    while i < 64
        invariant
            i <= 64,
            1 <= len <= 64,
            state@ == diffused_to(old(state)@, block@, sbox@, len as int, i as nat),
        decreases 64 - i,
    {
        let ghost before = state@;
        state[i] ^= rotl(state[63 - i], 7);
        state[i] = state[i].wrapping_mul(0x9E).wrapping_add(state[i % 8]);
        state[i] ^= rotl(block[(i + 4) % len], 3);
        let key: u8 = state[i % len];
        proof {
            key_product_is_small(len, key);
        }
        let idx: usize = ((i % len) ^ (len * (key as usize))) % 64;
        state[i] = rotl(state[i], (block[idx] as u32 + sbox[idx] as u32) % 8);
        state[i] ^= rotl(state[(i + 7) % 64], 3);
        state[i] = sbox_lookup(sbox, state[i]);
        assert(state@ =~= before.update(
            i as int,
            diffused_byte(before, block@, sbox@, len as int, i as int),
        ));
        i += 1;
    }
}

/// Second pass: cross mixing.
pub fn cross_mix(state: &mut [u8; 64])
    ensures
        final(state)@ == crossed_to(old(state)@, 64),
{
    let mut i: usize = 0;
    while i < 64
        invariant
            i <= 64,
            state@ == crossed_to(old(state)@, i as nat),
        decreases 64 - i,
    {
        state[i] ^= state[(i + 3) % 64];
        i += 1;
    }
}

/// Third pass: salt injection.
pub fn inject_salt(state: &mut [u8; 64], sbox: &[u8; 256], bytes: &[u8])
    requires
        bytes@.len() >= 1,
    ensures
        final(state)@ == salted(old(state)@, bytes@, sbox@),
{
    let count: usize = bytes.len();
    let mut salt: u8 = rotl(
        bytes[0].wrapping_add(bytes[count - 1].wrapping_mul(sbox[(count - 1) % 256])),
        3,
    );
    let mut i: usize = 0;
    while i < 64
        invariant
            i <= 64,
            count == bytes@.len(),
            count >= 1,
            salt == salt_after(bytes@, sbox@, i as nat),
            forall|k: int|
                0 <= k < i ==> state@[k] == old(state)@[k] ^ rotated(
                    salt_after(bytes@, sbox@, (k + 1) as nat),
                    (k % 8) as nat,
                ),
            forall|k: int| i <= k < 64 ==> state@[k] == old(state)@[k],
        decreases 64 - i,
    {
        // The offset is formed in 128 bits: a slice may be as long as `usize` allows.
        let at: usize = ((i as u128 + (count as u128 - 1)) % (count as u128)) as usize;
        salt ^= salt.wrapping_mul(bytes[at]);
        state[i] ^= rotl(salt, (i % 8) as u32);
        i += 1;
    }
    assert(state@ =~= salted(old(state)@, bytes@, sbox@));
}

/// Fourth pass: the closing mix of the round. `len` is the span of the input.
pub fn close_mix(state: &mut [u8; 64], block: &[u8; 64], len: usize)
    requires
        1 <= len <= 64,
    ensures
        final(state)@ == closed_to(old(state)@, block@, len as int, 64),
{
    let mut i: usize = 0;
    while i < 64
        invariant
            i <= 64,
            1 <= len <= 64,
            state@ == closed_to(old(state)@, block@, len as int, i as nat),
        decreases 64 - i,
    {
        let ghost before = state@;
        state[i] ^= state[(i + 3) % 64];
        state[i] = rotl(
            state[i].wrapping_add(state[(i + 5) % 64]).wrapping_mul(state[(i + 3) % 64]),
            5,
        );
        let key: u8 = state[(i + 3) % len];
        proof {
            key_product_is_small(len, key);
        }
        let idx: usize = ((i % len) ^ (len * (key as usize))) % 64;
        state[i] = rotl(state[i], (block[idx] % 8) as u32 + 1);
        state[i] ^= rotl(state[(i + 4) % 64], 4);
        assert(state@ =~= before.update(
            i as int,
            closed_byte(before, block@, len as int, i as int),
        ));
        i += 1;
    }
}

/// Applies one round to `state`: the four passes, one after the other. `bytes`
/// is the input, which must not be empty.
pub fn round(state: &mut [u8; 64], block: &[u8; 64], sbox: &[u8; 256], bytes: &[u8])
    requires
        bytes@.len() >= 1,
    ensures
        final(state)@ == round_of(old(state)@, block@, sbox@, bytes@),
{
    let len: usize = if bytes.len() < 64 {
        bytes.len()
    } else {
        64
    };
    diffuse(state, block, sbox, len);
    cross_mix(state);
    inject_salt(state, sbox, bytes);
    close_mix(state, block, len);
}

} // verus!
