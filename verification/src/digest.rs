//! The whole pipeline: input to accumulator, block and table, the rounds, the
//! closing pass, and the digest as bytes or as hexadecimal text.

use vstd::prelude::*;
use crate::finish::{end_mix, finished};
use crate::hex::{encode_hex, hex_of, hex_text_round_trip, bytes_of, value_of};
use crate::round::{round, rounds_of};
use crate::setup::{
    block_of, build_block, fill_byte, init_state, initial_state, normalized, pick_fill,
    round_count, rounds_for, Profile,
};
use crate::table::{expanded, init_sbox};

verus! {

/// The digest of `bytes` under `profile`: 64 bytes.
pub open spec fn digest_of(profile: Profile, bytes: Seq<u8>) -> Seq<u8> {
    let input = normalized(bytes);
    let state = initial_state(input.len(), profile.init);
    let block = block_of(input, fill_byte(profile, input.len()));
    let table = expanded(input);
    finished(rounds_of(state, block, table, input, rounds_for(input)), block, table)
}

/// The digest of `bytes` as text: 128 lower-case hex digits.
pub open spec fn hex_digest_of(profile: Profile, bytes: Seq<u8>) -> Seq<char> {
    hex_of(digest_of(profile, bytes))
}

/// Computes the digest of `bytes` under `profile`. Every input is accepted;
/// the empty input is taken as one zero byte.
pub fn digest_with(profile: &Profile, bytes: &[u8]) -> (digest: [u8; 64])
    ensures
        digest@ == digest_of(*profile, bytes@),
{
    let zero: [u8; 1] = [0u8; 1];
    let input: &[u8] = if bytes.len() == 0 {
        zero.as_slice()
    } else {
        bytes
    };
    assert(input@ =~= normalized(bytes@));
    let mut state: [u8; 64] = init_state(input.len(), profile.init);
    let block: [u8; 64] = build_block(input, pick_fill(profile, &state));
    let sbox: [u8; 256] = init_sbox(input);
    let total: usize = round_count(input);
    let ghost start = state@;
    let mut done: usize = 0;
    while done < total
        invariant
            done <= total,
            input@.len() >= 1,
            state@ == rounds_of(start, block@, sbox@, input@, done as nat),
        decreases total - done,
    {
        round(&mut state, &block, &sbox, input);
        done += 1;
    }
    end_mix(&mut state, &block, &sbox);
    state
}

/// Computes the digest of `bytes` under the standard profile.
pub fn digest(bytes: &[u8]) -> (digest: [u8; 64])
    ensures
        digest@ == digest_of(Profile::standard_profile(), bytes@),
{
    digest_with(&Profile::standard(), bytes)
}

/// Computes the digest of `bytes` under `profile` and writes it as 128
/// lower-case hex digits.
pub fn hash_hex_with(profile: &Profile, bytes: &[u8]) -> (text: String)
    ensures
        text@ == hex_digest_of(*profile, bytes@),
        text@.len() == 128,
{
    let digest: [u8; 64] = digest_with(profile, bytes);
    encode_hex(digest.as_slice())
}

/// Computes the digest of `bytes` under the standard profile and writes it as
/// 128 lower-case hex digits.
pub fn hash_hex(bytes: &[u8]) -> (text: String)
    ensures
        text@ == hex_digest_of(Profile::standard_profile(), bytes@),
        text@.len() == 128,
{
    hash_hex_with(&Profile::standard(), bytes)
}

/// The digest is a function of the input bytes and the profile, and of
/// nothing else: inputs with the same bytes at the same positions have the
/// same digest.
pub proof fn same_bytes_same_digest(profile: Profile, a: Seq<u8>, b: Seq<u8>)
    requires
        a.len() == b.len(),
        forall|i: int| 0 <= i < a.len() ==> a[i] == b[i],
    ensures
        digest_of(profile, a) == digest_of(profile, b),
        hex_digest_of(profile, a) == hex_digest_of(profile, b),
{
    assert(a =~= b);
}

/// The digest has 64 bytes; its text has 128 characters, each a lower-case hex
/// digit, and stands for exactly those 64 bytes.
pub proof fn digest_has_fixed_size(profile: Profile, bytes: Seq<u8>)
    ensures
        digest_of(profile, bytes).len() == 64,
        hex_digest_of(profile, bytes).len() == 128,
        forall|k: int|
            0 <= k < 128 ==> 0 <= value_of(#[trigger] hex_digest_of(profile, bytes)[k]) < 16,
        bytes_of(hex_digest_of(profile, bytes)) == digest_of(profile, bytes),
        bytes_of(hex_digest_of(profile, bytes)).len() == 64,
{
    hex_text_round_trip(digest_of(profile, bytes));
}

/// The empty input has the digest of the input that is one zero byte.
pub proof fn empty_input_is_one_zero_byte(profile: Profile)
    ensures
        digest_of(profile, Seq::<u8>::empty()) == digest_of(profile, seq![0u8]),
        hex_digest_of(profile, Seq::<u8>::empty()) == hex_digest_of(profile, seq![0u8]),
{
    assert(normalized(Seq::<u8>::empty()) =~= normalized(seq![0u8]));
}

} // verus!
