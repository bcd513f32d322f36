use zinc_lha::setup::{build_block, init_state, round_count};
use zinc_lha::{digest, end_mix, hash_hex, init_sbox, rotl, round, sbox_lookup};

fn by_hand(input: &[u8]) -> [u8; 64] {
    let mut state = init_state(input.len(), 0);
    let block = build_block(input, state[0]);
    let sbox = init_sbox(input);
    for _ in 0..round_count(input) {
        round(&mut state, &block, &sbox, input);
    }
    end_mix(&mut state, &block, &sbox);
    state
}

#[test]
fn digest_is_the_pipeline_of_its_parts() {
    let inputs: [&[u8]; 4] = [b"abc", b"Zinc-LHA", &[0], &[9u8; 90]];
    for input in inputs {
        assert_eq!(digest(input), by_hand(input));
    }
}

#[test]
fn hash_hex_writes_the_high_half_of_each_byte_first() {
    let bytes = digest(b"abc");
    let text = hash_hex(b"abc");
    assert_eq!(bytes[0], 0x5E);
    assert_eq!(&text[..2], "5e");
    assert_eq!(bytes[63], 0x03);
    assert_eq!(&text[126..], "03");
}

#[test]
fn root_items_are_those_of_the_modules() {
    assert_eq!(rotl(0x96, 3), zinc_lha::bits::rotl(0x96, 3));
    let sbox = init_sbox(b"abc");
    assert_eq!(sbox, zinc_lha::table::init_sbox(b"abc"));
    assert_eq!(sbox_lookup(&sbox, 0), 0x27);
    assert_eq!(sbox_lookup(&sbox, 1), 0x11);
    assert_eq!(sbox_lookup(&sbox, 2), 0xCF);
}
