//! What is built once from the input before the first round: the accumulator,
//! the block and the number of rounds.

use vstd::prelude::*;

verus! {

/// What fills the block behind the input, where the input is shorter than 64
/// bytes.
#[derive(Clone, Copy, Debug, PartialEq, Eq)]
pub enum BlockFill {
    /// Zero bytes.
    Zero,
    /// The first byte of the initial accumulator, which holds the low byte of
    /// the input length.
    StateByte,
}

/// The two values that the construction leaves to its user. The rest of the
/// pipeline is the same for every profile.
#[derive(Clone, Copy, Debug, PartialEq, Eq)]
pub struct Profile {
    /// The fill of the block.
    pub fill: BlockFill,
    /// The byte that the accumulator holds everywhere before the input length
    /// is mixed in.
    pub init: u8,
}

impl Profile {
    /// The standard profile: the block is filled with the first accumulator
    /// byte, and the accumulator starts from zero.
    pub open spec fn standard_profile() -> Profile {
        Profile { fill: BlockFill::StateByte, init: 0 }
    }

    /// The standard profile.
    pub fn standard() -> (p: Profile)
        ensures
            p == Profile::standard_profile(),
    {
        Profile { fill: BlockFill::StateByte, init: 0 }
    }
}

/// An empty input stands for the input of one zero byte; any other input
/// stands for itself.
pub open spec fn normalized(bytes: Seq<u8>) -> Seq<u8> {
    if bytes.len() == 0 {
        seq![0u8]
    } else {
        bytes
    }
}

/// The accumulator before the first round, for an input of `count` bytes:
/// `init` everywhere, the low byte of `count` XORed into position 0 and the
/// next byte of `count` into position 1. Only the low 16 bits of `count` count.
pub open spec fn initial_state(count: nat, init: u8) -> Seq<u8> {
    Seq::new(
        64,
        |i: int|
            if i == 0 {
                init ^ ((count % 256) as u8)
            } else if i == 1 {
                init ^ (((count / 256) % 256) as u8)
            } else {
                init
            },
    )
}

/// The block: the first 64 input bytes, and `fill` behind them where the input
/// is shorter. Input beyond 64 bytes is left out.
pub open spec fn block_of(bytes: Seq<u8>, fill: u8) -> Seq<u8> {
    Seq::new(
        64,
        |i: int|
            if i < bytes.len() {
                bytes[i]
            } else {
                fill
            },
    )
}

/// The fill byte that `profile` asks for, for an input of `count` bytes.
pub open spec fn fill_byte(profile: Profile, count: nat) -> u8 {
    match profile.fill {
        BlockFill::Zero => 0,
        BlockFill::StateByte => initial_state(count, profile.init)[0],
    }
}

/// The number of rounds for an input with first byte `first` and last byte
/// `last`: 10000 plus ((`first` + `last`, wrapping) mod 255) mod 1000.
pub open spec fn rounds_between(first: u8, last: u8) -> nat {
    (10000 + (((first + last) % 256) % 255) % 1000) as nat
}

/// The number of rounds for `bytes`.
pub open spec fn rounds_for(bytes: Seq<u8>) -> nat {
    rounds_between(bytes.first(), bytes.last())
}

/// Builds the accumulator for an input of `count` bytes.
pub fn init_state(count: usize, init: u8) -> (state: [u8; 64])
    ensures
        state@ == initial_state(count as nat, init),
{
    let mut state: [u8; 64] = [init; 64];
    state[0] ^= (count % 256) as u8;
    state[1] ^= ((count / 256) % 256) as u8;
    assert(state@ =~= initial_state(count as nat, init));
    state
}

/// Builds the block of `bytes` with the given fill byte.
pub fn build_block(bytes: &[u8], fill: u8) -> (block: [u8; 64])
    ensures
        block@ == block_of(bytes@, fill),
{
    let mut block: [u8; 64] = [fill; 64];
    let len: usize = if bytes.len() < 64 {
        bytes.len()
    } else {
        64
    };
    let mut i: usize = 0;
    while i < len
        invariant
            i <= len <= 64,
            len <= bytes@.len(),
            forall|k: int| 0 <= k < i ==> block@[k] == bytes@[k],
            forall|k: int| i <= k < 64 ==> block@[k] == fill,
        decreases len - i,
    {
        block[i] = bytes[i];
        i += 1;
    }
    assert(block@ =~= block_of(bytes@, fill));
    block
}

/// The fill byte that `profile` asks for, given the accumulator before the
/// first round.
pub fn pick_fill(profile: &Profile, state: &[u8; 64]) -> (fill: u8)
    ensures
        fill == match profile.fill {
            BlockFill::Zero => 0u8,
            BlockFill::StateByte => state@[0],
        },
{
    match profile.fill {
        BlockFill::Zero => 0,
        BlockFill::StateByte => state[0],
    }
}

/// The number of rounds for a non-empty input. It depends on the first and the
/// last byte only and lies between 10000 and 10999.
pub fn round_count(bytes: &[u8]) -> (n: usize)
    requires
        bytes@.len() >= 1,
    ensures
        n == rounds_for(bytes@),
        10000 <= n <= 10999,
{
    let sum: u8 = bytes[0].wrapping_add(bytes[bytes.len() - 1]);
    10000 + ((sum % 255) as usize) % 1000
}

/// The number of rounds lies between 10000 and 10999, whatever the input. As
/// the sum is reduced modulo 255 first, it never exceeds 10254.
pub proof fn round_count_in_range(first: u8, last: u8)
    ensures
        10000 <= rounds_between(first, last) <= 10254,
        rounds_between(first, last) <= 10999,
        rounds_between(first, last) == 10000 + ((first + last) % 256) % 255,
{
}

/// Only the low 16 bits of the input length reach the accumulator: lengths
/// that differ by a multiple of 65536 start from the same accumulator.
pub proof fn long_lengths_alias(count: nat, init: u8)
    ensures
        initial_state(count, init) == initial_state(count % 65536, init),
{
    assert((count % 65536) % 256 == count % 256);
    assert(((count % 65536) / 256) % 256 == (count / 256) % 256);
    assert(initial_state(count, init) =~= initial_state(count % 65536, init));
}

} // verus!
