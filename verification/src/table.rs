//! The permutation table: 256 bytes derived from the input by two passes of
//! keyed swaps over the identity table.

use vstd::prelude::*;
use crate::bits::{rotated, rotl};

verus! {

/// The input byte at position `k`, counted cyclically.
pub open spec fn cyclic(bytes: Seq<u8>, k: int) -> u8 {
    bytes[k % (bytes.len() as int)]
}

/// The table that holds `i` at position `i`.
pub open spec fn identity_table() -> Seq<u8> {
    Seq::new(256, |i: int| i as u8)
}

/// The seed before the first swap: first byte plus last byte, wrapping.
pub open spec fn first_seed(bytes: Seq<u8>) -> u8 {
    bytes.first().wrapping_add(bytes.last())
}

/// The position that position `i` is swapped with under `seed`.
pub open spec fn partner(seed: u8, i: int) -> int {
    (((seed as u64) ^ (i as u64)) % 256) as int
}

/// The second offset of the second pass: `i` plus (`11 i` XOR `i`).
pub open spec fn far_offset(i: int) -> int {
    i + ((((i * 11) as u64) ^ (i as u64)) as int)
}

/// One keyed swap: entry `i` is XORed with `x`, then entry `j` with `y`, then
/// the two entries change places.
pub open spec fn stirred(t: Seq<u8>, i: int, j: int, x: u8, y: u8) -> Seq<u8> {
    let a = t.update(i, t[i] ^ x);
    let b = a.update(j, a[j] ^ y);
    b.update(i, b[j]).update(j, b[i])
}

/// The seed of the first pass at position `i`, from the seed and table before.
pub open spec fn first_pass_seed(bytes: Seq<u8>, t: Seq<u8>, seed: u8, i: int) -> u8 {
    seed.wrapping_add(cyclic(bytes, i)) ^ t[i] ^ t[(i + 7) % 256] ^ rotated(seed, (i % 5) as nat)
}

/// Table and seed once the first pass has handled positions 255 down to `i`.
pub open spec fn first_pass_from(bytes: Seq<u8>, i: int) -> (Seq<u8>, u8)
    decreases 256 - i,
{
    if i >= 256 {
        (identity_table(), first_seed(bytes))
    } else {
        let (t, seed) = first_pass_from(bytes, i + 1);
        let next = first_pass_seed(bytes, t, seed, i);
        (stirred(t, i, partner(next, i), cyclic(bytes, i), cyclic(bytes, i + 1)), next)
    }
}

/// Table and seed once the second pass has handled positions 255 down to `i`.
/// It starts from what the first pass left at position 1.
pub open spec fn second_pass_from(bytes: Seq<u8>, i: int) -> (Seq<u8>, u8)
    decreases 256 - i,
{
    if i >= 256 {
        first_pass_from(bytes, 1)
    } else {
        let (t, seed) = second_pass_from(bytes, i + 1);
        let next = seed ^ t[(i * 3) % 256];
        (
            stirred(
                t,
                i,
                partner(next, i),
                cyclic(bytes, i + 16),
                cyclic(bytes, far_offset(i)),
            ),
            next,
        )
    }
}

/// The permutation table of `bytes`: what both passes leave.
pub open spec fn expanded(bytes: Seq<u8>) -> Seq<u8> {
    second_pass_from(bytes, 1).0
}

/// No byte occurs at two positions of `table`.
pub open spec fn distinct(table: Seq<u8>) -> bool {
    forall|i: int, j: int| 0 <= i < j < table.len() ==> table[i] != table[j]
}

/// Builds the permutation table of a non-empty input.
pub fn init_sbox(bytes: &[u8]) -> (sbox: [u8; 256])
    requires
        bytes@.len() >= 1,
    ensures
        sbox@ == expanded(bytes@),
{
    let len: usize = bytes.len();
    let mut sbox: [u8; 256] = [0u8; 256];
    let mut k: usize = 0;
    while k < 256
        invariant
            k <= 256,
            forall|j: int| 0 <= j < k ==> sbox@[j] == j as u8,
        decreases 256 - k,
    {
        sbox[k] = k as u8;
        k += 1;
    }
    assert(sbox@ =~= identity_table());

    let mut seed: u8 = bytes[0].wrapping_add(bytes[len - 1]);
    let mut i: usize = 255;
    while i >= 1
        invariant
            i <= 255,
            len == bytes@.len(),
            len >= 1,
            (sbox@, seed) == first_pass_from(bytes@, i + 1),
        decreases i,
    {
        seed = seed.wrapping_add(bytes[i % len]) ^ sbox[i] ^ sbox[(i + 7) % 256] ^ rotl(
            seed,
            (i % 5) as u32,
        );
        let j: usize = ((seed as usize) ^ i) % 256;
        sbox[i] ^= bytes[i % len];
        sbox[j] ^= bytes[(i + 1) % len];
        let held: u8 = sbox[i];
        sbox[i] = sbox[j];
        sbox[j] = held;
        i -= 1;
    }

    let mut i: usize = 255;
    while i >= 1
        invariant
            i <= 255,
            len == bytes@.len(),
            len >= 1,
            (sbox@, seed) == second_pass_from(bytes@, i + 1),
        decreases i,
    {
        seed ^= sbox[(i * 3) % 256];
        let j: usize = ((seed as usize) ^ i) % 256;
        let mixed: usize = (i * 11) ^ i;
        assert(mixed < 4096) by (bit_vector)
            requires
                mixed == ((i * 11) as usize) ^ i,
                i <= 255,
        ;
        sbox[i] ^= bytes[(i + 16) % len];
        sbox[j] ^= bytes[(i + mixed) % len];
        let held: u8 = sbox[i];
        sbox[i] = sbox[j];
        sbox[j] = held;
        i -= 1;
    }
    sbox
}

/// Tells whether `table` is a bijection on the bytes, that is, whether its 256
/// entries are pairwise distinct. The table of an input need not be one: an
/// entry is XORed with input bytes before it is swapped.
pub fn is_bijection(table: &[u8; 256]) -> (yes: bool)
    ensures
        yes == distinct(table@),
{
    let mut seen: [bool; 256] = [false; 256];
    let mut i: usize = 0;
    while i < 256
        invariant
            i <= 256,
            forall|v: int|
                0 <= v < 256 ==> (seen@[v] <==> exists|j: int| 0 <= j < i && table@[j] == v),
            forall|a: int, b: int| 0 <= a < b < i ==> table@[a] != table@[b],
        decreases 256 - i,
    {
        let v: usize = table[i] as usize;
        if seen[v] {
            return false;
        }
        seen[v] = true;
        i += 1;
    }
    true
}

/// A keyed swap between two positions of a table leaves its length as it is.
proof fn stirred_keeps_length(t: Seq<u8>, i: int, j: int, x: u8, y: u8)
    requires
        0 <= i < t.len(),
        0 <= j < t.len(),
    ensures
        stirred(t, i, j, x, y).len() == t.len(),
{
}

/// The first pass keeps 256 entries at every position it has reached.
proof fn first_pass_keeps_length(bytes: Seq<u8>, i: int)
    requires
        1 <= i <= 256,
    ensures
        first_pass_from(bytes, i).0.len() == 256,
    decreases 256 - i,
{
    if i < 256 {
        first_pass_keeps_length(bytes, i + 1);
        let (t, seed) = first_pass_from(bytes, i + 1);
        let next = first_pass_seed(bytes, t, seed, i);
        stirred_keeps_length(t, i, partner(next, i), cyclic(bytes, i), cyclic(bytes, i + 1));
    }
}

/// The second pass keeps 256 entries at every position it has reached.
proof fn second_pass_keeps_length(bytes: Seq<u8>, i: int)
    requires
        1 <= i <= 256,
    ensures
        second_pass_from(bytes, i).0.len() == 256,
    decreases 256 - i,
{
    if i < 256 {
        second_pass_keeps_length(bytes, i + 1);
        let (t, seed) = second_pass_from(bytes, i + 1);
        let next = seed ^ t[(i * 3) % 256];
        stirred_keeps_length(
            t,
            i,
            partner(next, i),
            cyclic(bytes, i + 16),
            cyclic(bytes, far_offset(i)),
        );
    } else {
        first_pass_keeps_length(bytes, 1);
    }
}

/// The table of any input has 256 entries.
pub proof fn table_has_256_entries(bytes: Seq<u8>)
    ensures
        expanded(bytes).len() == 256,
{
    second_pass_keeps_length(bytes, 1);
}

/// A table of 256 pairwise distinct bytes holds every byte, so each exactly
/// once: it is a bijection on the bytes.
pub proof fn distinct_table_holds_every_byte(table: Seq<u8>)
    requires
        table.len() == 256,
        distinct(table),
    ensures
        forall|v: u8| #[trigger] table.contains(v),
{
    let values: Seq<int> = Seq::new(256, |i: int| table[i] as int);
    assert(values.no_duplicates()) by {
        assert forall|i: int, j: int|
            0 <= i < values.len() && 0 <= j < values.len() && i != j implies values[i]
            != values[j] by {
            if i < j {
                assert(table[i] != table[j]);
            } else {
                assert(table[j] != table[i]);
            }
        }
    }
    values.unique_seq_to_set();
    vstd::set_lib::lemma_int_range(0, 256);
    let all = vstd::set_lib::set_int_range(0, 256);
    assert(values.to_set().subset_of(all)) by {
        assert forall|v: int| values.to_set().contains(v) implies all.contains(v) by {
            let i = choose|i: int| 0 <= i < values.len() && values[i] == v;
            assert(values[i] == table[i] as int);
        }
    }
    vstd::seq_lib::seq_to_set_is_finite(values);
    vstd::set_lib::lemma_subset_equality(values.to_set(), all);
    assert forall|v: u8| #[trigger] table.contains(v) by {
        assert(all.contains(v as int));
        assert(values.to_set().contains(v as int));
        let i = choose|i: int| 0 <= i < values.len() && values[i] == v as int;
        assert(table[i] == v);
    }
}

/// Swapping two entries of a table of pairwise distinct bytes leaves them
/// pairwise distinct. With zero for both keys, a keyed swap is a plain swap.
proof fn plain_swap_keeps_distinct(t: Seq<u8>, i: int, j: int)
    requires
        0 <= i < t.len(),
        0 <= j < t.len(),
        distinct(t),
    ensures
        distinct(stirred(t, i, j, 0, 0)),
        stirred(t, i, j, 0, 0).len() == t.len(),
{
    assert(forall|b: u8| #[trigger] (b ^ 0) == b) by (bit_vector);
    let after = stirred(t, i, j, 0, 0);
    assert(after =~= t.update(i, t[j]).update(j, t[i]));
    assert forall|a: int, b: int| 0 <= a < b < after.len() implies after[a] != after[b] by {
        let from_a = if a == i { j } else if a == j { i } else { a };
        let from_b = if b == i { j } else if b == j { i } else { b };
        assert(after[a] == t[from_a] && after[b] == t[from_b]);
        if from_a < from_b {
            assert(t[from_a] != t[from_b]);
        } else {
            assert(t[from_b] != t[from_a]);
        }
    }
}

/// An input of zero bytes only leaves the first pass with pairwise distinct
/// entries at every position it has reached.
proof fn first_pass_of_zeros_is_distinct(bytes: Seq<u8>, i: int)
    requires
        bytes.len() >= 1,
        forall|k: int| 0 <= k < bytes.len() ==> bytes[k] == 0,
        1 <= i <= 256,
    ensures
        first_pass_from(bytes, i).0.len() == 256,
        distinct(first_pass_from(bytes, i).0),
    decreases 256 - i,
{
    if i < 256 {
        first_pass_of_zeros_is_distinct(bytes, i + 1);
        let (t, seed) = first_pass_from(bytes, i + 1);
        let next = first_pass_seed(bytes, t, seed, i);
        assert(cyclic(bytes, i) == 0 && cyclic(bytes, i + 1) == 0);
        plain_swap_keeps_distinct(t, i, partner(next, i));
    }
}

/// The same for the second pass.
proof fn second_pass_of_zeros_is_distinct(bytes: Seq<u8>, i: int)
    requires
        bytes.len() >= 1,
        forall|k: int| 0 <= k < bytes.len() ==> bytes[k] == 0,
        1 <= i <= 256,
    ensures
        second_pass_from(bytes, i).0.len() == 256,
        distinct(second_pass_from(bytes, i).0),
    decreases 256 - i,
{
    if i < 256 {
        second_pass_of_zeros_is_distinct(bytes, i + 1);
        let (t, seed) = second_pass_from(bytes, i + 1);
        let next = seed ^ t[(i * 3) % 256];
        assert(far_offset(i) >= 0);
        assert(cyclic(bytes, i + 16) == 0 && cyclic(bytes, far_offset(i)) == 0);
        plain_swap_keeps_distinct(t, i, partner(next, i));
    } else {
        first_pass_of_zeros_is_distinct(bytes, 1);
    }
}

/// Where every input byte is zero, the table is a bijection: the XORs change
/// nothing, and what is left is swaps of the identity table. For other inputs
/// nothing of the kind holds.
pub proof fn table_of_zeros_is_a_bijection(bytes: Seq<u8>)
    requires
        bytes.len() >= 1,
        forall|k: int| 0 <= k < bytes.len() ==> bytes[k] == 0,
    ensures
        distinct(expanded(bytes)),
        forall|v: u8| #[trigger] expanded(bytes).contains(v),
{
    second_pass_of_zeros_is_distinct(bytes, 1);
    distinct_table_holds_every_byte(expanded(bytes));
}

} // verus!
