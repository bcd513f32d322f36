use zinc_lha::bits::{rotl, sbox_lookup};
use zinc_lha::table::{init_sbox, is_bijection};

fn nibble(c: u8) -> u8 {
    match c {
        b'0'..=b'9' => c - b'0',
        b'a'..=b'f' => c - b'a' + 10,
        _ => panic!("not a lower-case hex digit"),
    }
}

fn unhex(parts: &[&str]) -> Vec<u8> {
    let text: String = parts.concat();
    let raw = text.as_bytes();
    assert_eq!(raw.len() % 2, 0);
    raw.chunks(2).map(|pair| nibble(pair[0]) * 16 + nibble(pair[1])).collect()
}

fn identity() -> [u8; 256] {
    let mut table = [0u8; 256];
    for (i, entry) in table.iter_mut().enumerate() {
        *entry = i as u8;
    }
    table
}

#[test]
fn rotl_agrees_with_rotate_left_for_every_byte_and_count() {
    for val in 0..=255u8 {
        for bits in 0..=70u32 {
            assert_eq!(rotl(val, bits), val.rotate_left(bits), "val {val} bits {bits}");
        }
        assert_eq!(rotl(val, u32::MAX), val.rotate_left(7));
        assert_eq!(rotl(val, 255), val.rotate_left(7));
    }
}

#[test]
fn rotl_known_values() {
    assert_eq!(rotl(0x81, 1), 0x03);
    assert_eq!(rotl(0x12, 4), 0x21);
    assert_eq!(rotl(0x01, 7), 0x80);
    assert_eq!(rotl(0x80, 1), 0x01);
    assert_eq!(rotl(0b1011_0010, 3), 0b1001_0101);
    assert_eq!(rotl(0xA7, 0), 0xA7);
    assert_eq!(rotl(0xA7, 8), 0xA7);
    assert_eq!(rotl(0xA7, 9), rotl(0xA7, 1));
}

#[test]
fn rotl_by_the_rest_of_a_turn_gives_the_byte_back() {
    for val in 0..=255u8 {
        for bits in 0..=16u32 {
            assert_eq!(rotl(rotl(val, bits), 8 - bits % 8), val);
        }
    }
}

#[test]
fn sbox_lookup_picks_the_entry() {
    let mut table = identity();
    table[0] = 0xEE;
    table[200] = 7;
    table[255] = 0x10;
    assert_eq!(sbox_lookup(&table, 0), 0xEE);
    assert_eq!(sbox_lookup(&table, 1), 1);
    assert_eq!(sbox_lookup(&table, 200), 7);
    assert_eq!(sbox_lookup(&table, 255), 0x10);
}

#[test]
fn init_sbox_table_of_abc() {
    let expected = unhex(&[
        "2711cf7118f8decc054db4bd1b2e6a40eb497c5794b1d136d7b3c8605a1be5b8",
        "1ee1c28de847c70e915d1d44b95b16ec6392b6399394ededac4016d74864b9b8",
        "4f82c30686316512ebc7d8c7313191c2897f6ce8cf4351985ed25a5822f861be",
        "acfac72e4349eb5fd0acf2f917bcf698cbabddd888799bd6dd7b05780f81e66a",
        "ca0cf7474008a5d072e764ab44608ccac1cc12fee10349feabd93e3f4d3a6eb8",
        "7f42d049014d6dc730fb034b7c73938c59108f352cc811a0fe9394a0c0379d57",
        "a5d73292486a79f7470cff542ae3b704cf9d9669345c3e517485ebfc159ce668",
        "e4538d614118e28126f47708d6c00cbe6bd0047544a4382fbe8417577d3fe01d",
    ]);
    assert_eq!(init_sbox(b"abc").to_vec(), expected);
}

#[test]
fn init_sbox_table_of_zero() {
    let expected = unhex(&[
        "dbe17cf5e84396ac515fadc2a6b632c37f2b7d3e982dd594864c80669506f4a8",
        "76256f65aabac124b55c3a5a0cbbcbd4643ddfb26358a9128d62b89bc5da9a49",
        "d37797a3283911ea2f901a17336c753fca9d71d17a31d7210369276ec7b157a7",
        "fdb4e550850d704147f6e3c8e4374ea1c95d02c0ff1cf98809ae45540136ec44",
        "be60816b40de1030521638e67993f1784fc41859355e8f72d8ce9eb7040f1ffc",
        "eb8e8a0bbc9f0a6dc6bf221e894d3b42fa614ad0eebd53d6e01574aba48708e9",
        "8214cf3419a5b9b00ea0dc20e2f3f0051b4b55dd676a0729ef99a248cd912313",
        "56d9469c83f23ced92b31d2673e7af008b842cfb2a8c7e7bcc5b68f7fef8d22e",
    ]);
    assert_eq!(init_sbox(&[0u8]).to_vec(), expected);
}

#[test]
fn init_sbox_table_of_hello() {
    let expected = unhex(&[
        "0012a09ad69a9f855dd92d47afae67881023ef246330fda114505748526922c0",
        "599700f7c72649e293ffbfbaab62eaddee57890202bad099bae19f112a7a5835",
        "a846cb8a6de24954fee3c919a7a7a5696753ff2785f2e9d16ee8d5ced07476a4",
        "e871a7be0445fe0ba92d70a3564c86f0e03b14d849d01ba45a64a05bc5a870ed",
        "4a7cefe6049216ec88b4f89c6c71b9a0d217d2d7959329b5646f3d1bc4022904",
        "78ae17df39a530eaf7fa8547ae2565a43f8036b612dc3e9118653888bc1ee82a",
        "f0f2450924b8a21950625cf79c13663471a5c32bd43e0528bf6ca8b269090e8c",
        "34b97718223a139a5518f25a011fda447a21db4680f153d08349934d8d37ea9d",
    ]);
    assert_eq!(init_sbox(b"hello").to_vec(), expected);
}

#[test]
fn init_sbox_table_of_wrap() {
    let expected = unhex(&[
        "71c5e91b55c879682e0eb216318ef8d2607154d7cc0c870cb818f9828d5e8e8b",
        "b6bb02fe10ee62aff15d8282e25f48db62d47017533fd65e19623abb698a488e",
        "52e70a5c8a83f76dba8f6a2a6a12e415826d1b61c78df666777e2a685c8841a2",
        "f90345cc0b5b146721490d67b631087ca59c043cfd127ae386c6d67d4fec06f1",
        "cce6c22a56fe89dd8414d58034f827d90b6443a3cd74dd43b153d87ae907d3f7",
        "1ee002958f98e4bc967dd306e26d189a73456cdb362c1cd7232b66f5f3b15962",
        "7b33fe110b3f9a20c0840aedae8f775eb5c2643ef1c386813bfd03f6ac91dafa",
        "33425220c3302b7636c96b06ef893eec387c5a9d937be216bd926075ff9d6b65",
    ]);
    assert_eq!(init_sbox(&[200, 1, 2, 100]).to_vec(), expected);
}

#[test]
fn init_sbox_table_of_a_hundred_bytes() {
    let input: Vec<u8> = (0..100u8).collect();
    let expected = unhex(&[
        "1b189f5d1066de8b6dd892853f9b7913553f01945e0139584f055940c8e5f16c",
        "6f3d03dc0a17f2715ded2a27e9c926b8821f8c4755f4ff218596a0173df92703",
        "94f2d64d168af7a38e6c0bbdedc0142cef087e22ab6196509ffa3110bfc2f7e5",
        "d90bb1a899ded71dc0039cdea38ebeb269071d7b693b77e64c6dbfbcc5c61313",
        "22f55a4607bed8865cdbfd18e3c995843fa29adadeecf16c22ebfde70fcea0ba",
        "38173504e6b30949abd441d98641cace33313d6fcb2784ab7bec0265870134b3",
        "5f7baa311a4006156611b825bac649f347afbf17e3c9fd8e9a4e87cada65c9ed",
        "b40a064418f08cae3b69b4ab2f7c653cc33969ba5e11f37e06bc968f30971110",
    ]);
    assert_eq!(init_sbox(&input).to_vec(), expected);
}

#[test]
fn init_sbox_depends_on_bytes_behind_the_first_sixty_four() {
    let mut input: Vec<u8> = (0..100u8).collect();
    let before = init_sbox(&input);
    input[80] ^= 1;
    assert_ne!(init_sbox(&input).to_vec(), before.to_vec());
}

#[test]
fn is_bijection_of_identity_and_of_a_swap() {
    let mut table = identity();
    assert!(is_bijection(&table));
    table.swap(3, 250);
    assert!(is_bijection(&table));
}

#[test]
fn is_bijection_sees_a_repeated_entry() {
    let mut table = identity();
    table[255] = 0;
    assert!(!is_bijection(&table));
    let mut table = identity();
    table[17] = 18;
    assert!(!is_bijection(&table));
    assert!(!is_bijection(&[0u8; 256]));
}

#[test]
fn table_of_zero_bytes_is_a_bijection() {
    assert!(is_bijection(&init_sbox(&[0u8])));
    assert!(is_bijection(&init_sbox(&[0u8; 5])));
    assert!(is_bijection(&init_sbox(&[0u8; 300])));
}

#[test]
fn table_of_text_need_not_be_a_bijection() {
    assert!(!is_bijection(&init_sbox(b"abc")));
    assert!(!is_bijection(&init_sbox(b"a")));
    assert!(!is_bijection(&init_sbox(b"hello")));
    assert!(!is_bijection(&init_sbox(&[0xFF, 0xFF])));
    let distinct_values = |table: &[u8; 256]| {
        let mut seen = [false; 256];
        for &entry in table.iter() {
            seen[entry as usize] = true;
        }
        seen.iter().filter(|&&hit| hit).count()
    };
    assert_eq!(distinct_values(&init_sbox(b"abc")), 161);
    assert_eq!(distinct_values(&init_sbox(&[0u8])), 256);
}
