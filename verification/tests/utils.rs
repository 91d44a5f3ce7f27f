use mining_bridge::error::Error;
use mining_bridge::utils::{Extranonce, HexBytes, HexU32Be, MerkleNode, PrevHash};

fn count_up(n: u8) -> Vec<u8> {
    (0..n).collect()
}

#[test]
fn extranonce_keeps_bytes_within_its_bound() {
    for len in [0u8, 1, 4, 31, 32] {
        let bytes = count_up(len);
        let extranonce = Extranonce::from_bytes(bytes.clone()).unwrap();
        assert_eq!(extranonce.to_bytes(), bytes);
        assert_eq!(extranonce.as_ref(), &bytes[..]);
        assert_eq!(extranonce.len(), len as usize);
        assert_eq!(extranonce.is_empty(), len == 0);
    }
}

#[test]
fn extranonce_refuses_more_than_32_bytes() {
    assert_eq!(
        Extranonce::from_bytes(count_up(33)),
        Err(Error::CodecLength { len: 33, max: 32 })
    );
    assert_eq!(
        Extranonce::from_bytes(vec![0; 100]),
        Err(Error::CodecLength { len: 100, max: 32 })
    );
}

#[test]
fn extranonce_reads_and_writes_hex() {
    let extranonce = Extranonce::from_hex("0a1b2c").unwrap();
    assert_eq!(extranonce.to_bytes(), vec![0x0a, 0x1b, 0x2c]);
    assert_eq!(extranonce.to_hex(), "0a1b2c");
    assert_eq!(extranonce.clone(), extranonce);
}

#[test]
fn extranonce_pads_odd_hex() {
    let extranonce = Extranonce::from_hex("a1b").unwrap();
    assert_eq!(extranonce.to_bytes(), vec![0x0a, 0x1b]);
    assert_eq!(extranonce.to_hex(), "0a1b");
}

#[test]
fn extranonce_hex_errors() {
    assert_eq!(Extranonce::from_hex("0x"), Err(Error::CodecHex { position: 1 }));
    let long = "00".repeat(33);
    assert_eq!(
        Extranonce::from_hex(&long),
        Err(Error::CodecLength { len: 33, max: 32 })
    );
    // 65 digits are read as 33 bytes
    let odd = "1".repeat(65);
    assert_eq!(
        Extranonce::from_hex(&odd),
        Err(Error::CodecLength { len: 33, max: 32 })
    );
}

#[test]
fn merkle_node_takes_exactly_32_bytes() {
    let bytes = count_up(32);
    let node = MerkleNode::from_bytes(bytes.clone()).unwrap();
    assert_eq!(node.to_bytes(), bytes);
    assert_eq!(node.as_ref(), &bytes[..]);
    assert_eq!(node.len(), 32);
    assert!(!node.is_empty());
    assert_eq!(
        node.to_hex(),
        "000102030405060708090a0b0c0d0e0f101112131415161718191a1b1c1d1e1f"
    );
    assert_eq!(MerkleNode::from_hex(&node.to_hex()), Ok(node.clone()));
}

#[test]
fn merkle_node_refuses_other_lengths() {
    assert_eq!(
        MerkleNode::from_bytes(count_up(40)),
        Err(Error::CodecLength { len: 40, max: 32 })
    );
    assert_eq!(
        MerkleNode::from_bytes(count_up(31)),
        Err(Error::CodecLength { len: 31, max: 32 })
    );
    assert_eq!(
        MerkleNode::from_bytes(vec![]),
        Err(Error::CodecLength { len: 0, max: 32 })
    );
    assert_eq!(
        MerkleNode::from_hex("0708"),
        Err(Error::CodecLength { len: 2, max: 32 })
    );
    assert_eq!(MerkleNode::from_hex("q"), Err(Error::CodecHex { position: 0 }));
}

#[test]
fn prev_hash_takes_exactly_32_bytes() {
    let bytes = count_up(32);
    let hash = PrevHash::from_bytes(bytes.clone()).unwrap();
    assert_eq!(hash.to_bytes(), bytes);
    assert_eq!(hash.as_ref(), &bytes[..]);
    assert_eq!(hash.len(), 32);
    assert!(!hash.is_empty());
    assert_eq!(
        PrevHash::from_bytes(count_up(31)),
        Err(Error::CodecLength { len: 31, max: 32 })
    );
    assert_eq!(
        PrevHash::from_bytes(count_up(33)),
        Err(Error::CodecLength { len: 33, max: 32 })
    );
    assert_eq!(
        PrevHash::from_bytes(vec![]),
        Err(Error::CodecLength { len: 0, max: 32 })
    );
}

#[test]
fn prev_hash_plain_hex_keeps_the_order() {
    let text = "000102030405060708090a0b0c0d0e0f101112131415161718191a1b1c1d1e1f";
    let hash = PrevHash::from_hex(text).unwrap();
    assert_eq!(hash.to_bytes(), count_up(32));
    assert_eq!(hash.to_hex(), text);
}

#[test]
fn prev_hash_legacy_text_swaps_within_each_word() {
    let text = "000102030405060708090a0b0c0d0e0f101112131415161718191a1b1c1d1e1f";
    let hash = PrevHash::from_legacy_hex(text).unwrap();
    let expected: Vec<u8> = vec![
        3, 2, 1, 0, 7, 6, 5, 4, 11, 10, 9, 8, 15, 14, 13, 12, 19, 18, 17, 16, 23, 22, 21, 20, 27,
        26, 25, 24, 31, 30, 29, 28,
    ];
    assert_eq!(hash.to_bytes(), expected);
    assert_eq!(hash.to_legacy_hex(), text);
    assert_eq!(
        hash.to_hex(),
        "03020100070605040b0a09080f0e0d0c13121110171615141b1a19181f1e1d1c"
    );
}

#[test]
fn prev_hash_legacy_text_is_not_a_full_reversal() {
    let bytes = count_up(32);
    let text = mining_bridge::hex_codec::hex_encode(&bytes);
    let hash = PrevHash::from_legacy_hex(&text).unwrap();
    let mut reversed = bytes.clone();
    reversed.reverse();
    assert_ne!(hash.to_bytes(), reversed);
    // each word read most significant byte first is the word held least
    // significant byte first
    for (given, held) in bytes.chunks(4).zip(hash.to_bytes().chunks(4)) {
        let given = u32::from_be_bytes([given[0], given[1], given[2], given[3]]);
        let held = u32::from_le_bytes([held[0], held[1], held[2], held[3]]);
        assert_eq!(given, held);
    }
    // a hash whose words read the same in either order is where the two
    // agree
    let same = vec![0x11u8; 32];
    let hash = PrevHash::from_legacy_hex(&mining_bridge::hex_codec::hex_encode(&same)).unwrap();
    assert_eq!(hash.to_bytes(), same);
}

#[test]
fn prev_hash_legacy_round_trip_of_a_block_hash() {
    let text = "00000000000000000004bc9fc532c790f32a5170fa9461110319d1c1b1c2e2d3";
    let hash = PrevHash::from_legacy_hex(text).unwrap();
    assert_eq!(hash.to_legacy_hex(), text);
    assert_eq!(
        hash.to_hex(),
        "00000000000000009fbc040090c732c570512af3116194fac1d11903d3e2c2b1"
    );
    let again = PrevHash::from_bytes(hash.to_bytes()).unwrap();
    assert_eq!(again.to_legacy_hex(), text);
}

#[test]
fn prev_hash_legacy_text_in_upper_case_comes_back_in_lower_case() {
    let text = "AABBCCDD".repeat(8);
    let hash = PrevHash::from_legacy_hex(&text).unwrap();
    assert_eq!(hash.to_bytes(), [0xdd, 0xcc, 0xbb, 0xaa].repeat(8));
    assert_eq!(hash.to_legacy_hex(), "aabbccdd".repeat(8));
}

#[test]
fn prev_hash_legacy_text_must_stand_for_32_bytes() {
    assert_eq!(
        PrevHash::from_legacy_hex(&"00".repeat(31)),
        Err(Error::CodecLength { len: 31, max: 32 })
    );
    assert_eq!(
        PrevHash::from_legacy_hex(&"00".repeat(33)),
        Err(Error::CodecLength { len: 33, max: 32 })
    );
    assert_eq!(
        PrevHash::from_legacy_hex(""),
        Err(Error::CodecLength { len: 0, max: 32 })
    );
    // 63 digits are read as 32 bytes
    let odd = "1".repeat(63);
    let hash = PrevHash::from_legacy_hex(&odd).unwrap();
    assert_eq!(hash.to_legacy_hex(), format!("0{}", odd));
    let mut bad = "00".repeat(32);
    bad.replace_range(10..11, "x");
    assert_eq!(
        PrevHash::from_legacy_hex(&bad),
        Err(Error::CodecHex { position: 10 })
    );
}

fn prev_hash_property(mut bytes: Vec<u8>) -> bool {
    bytes.resize(32, 0);
    let be_hex = mining_bridge::hex_codec::hex_encode(&bytes);
    let me = PrevHash::from_legacy_hex(be_hex.as_str()).unwrap();
    let back_to_hex = me.to_legacy_hex();
    let back_to_hex_value = serde_json::Value::from(me.to_legacy_hex());
    let value_to_string = back_to_hex_value.as_str().unwrap();

    let chunk_size: usize = std::mem::size_of::<u32>();
    let me_chunks = me.to_bytes();
    let me_chunks = me_chunks.chunks(chunk_size);
    for (be_chunk, le_chunk) in bytes.chunks(chunk_size).zip(me_chunks) {
        let le_chunk = [le_chunk[0], le_chunk[1], le_chunk[2], le_chunk[3]];
        let be_chunk = [be_chunk[0], be_chunk[1], be_chunk[2], be_chunk[3]];
        let le_u32 = u32::from_le_bytes(le_chunk);
        let be_u32 = u32::from_be_bytes(be_chunk);

        if le_u32 != be_u32 {
            return false;
        }
    }

    be_hex == back_to_hex && be_hex == value_to_string
}

#[test]
fn test_prev_hash() {
    quickcheck::QuickCheck::new().quickcheck(prev_hash_property as fn(Vec<u8>) -> bool);
}

#[test]
fn hex_bytes_have_no_bound() {
    let bytes = vec![0xabu8; 1000];
    let held = HexBytes::from_bytes(bytes.clone());
    assert_eq!(held.len(), 1000);
    assert!(!held.is_empty());
    assert_eq!(held.to_bytes(), bytes);
    assert_eq!(held.as_ref(), &bytes);
    assert_eq!(held.to_hex(), "ab".repeat(1000));
    assert_eq!(HexBytes::from_hex(&held.to_hex()), Ok(held.clone()));
    assert!(HexBytes::from_bytes(vec![]).is_empty());
    assert_eq!(HexBytes::from_hex("abc").unwrap().to_bytes(), vec![0x0a, 0xbc]);
    assert_eq!(HexBytes::from_hex("ab-"), Err(Error::CodecHex { position: 2 }));
}

#[test]
fn check_mask_asks_for_every_bit_of_the_mask() {
    assert!(HexU32Be(0xffff_ffff).check_mask(&HexU32Be(0x1fff_e000)));
    assert!(HexU32Be(0x1fff_e000).check_mask(&HexU32Be(0x1fff_e000)));
    assert!(HexU32Be(0x1234_5678).check_mask(&HexU32Be(0)));
    assert!(HexU32Be(0).check_mask(&HexU32Be(0)));
    assert!(HexU32Be(0b1110).check_mask(&HexU32Be(0b0110)));
    assert!(!HexU32Be(0b1010).check_mask(&HexU32Be(0b0110)));
    assert!(!HexU32Be(0).check_mask(&HexU32Be(1)));
    assert!(!HexU32Be(0x7fff_ffff).check_mask(&HexU32Be(0x8000_0000)));
}

#[test]
fn check_mask_fails_on_each_single_missing_bit() {
    for bit in 0..32 {
        let mask = 0xffff_ffffu32;
        let value = mask & !(1u32 << bit);
        assert!(!HexU32Be(value).check_mask(&HexU32Be(mask)));
        assert!(!HexU32Be(value).check_mask(&HexU32Be(1u32 << bit)));
        assert!(HexU32Be(value).check_mask(&HexU32Be(value)));
        assert_eq!(
            HexU32Be(value).check_mask(&HexU32Be(mask)),
            (!value) & mask == 0
        );
    }
}

#[test]
fn word_reads_eight_digits_most_significant_first() {
    assert_eq!(HexU32Be::from_hex("00000001"), Ok(HexU32Be(1)));
    assert_eq!(HexU32Be::from_hex("12345678"), Ok(HexU32Be(0x1234_5678)));
    assert_eq!(HexU32Be::from_hex("1fffe000"), Ok(HexU32Be(0x1fff_e000)));
    assert_eq!(HexU32Be::from_hex("FFFFFFFF"), Ok(HexU32Be(u32::MAX)));
    assert_eq!(HexU32Be::from_hex("DeadBeef"), Ok(HexU32Be(0xdead_beef)));
}

#[test]
fn word_refuses_other_lengths_and_other_characters() {
    assert_eq!(
        HexU32Be::from_hex("123"),
        Err(Error::CodecLength { len: 3, max: 8 })
    );
    assert_eq!(
        HexU32Be::from_hex(""),
        Err(Error::CodecLength { len: 0, max: 8 })
    );
    assert_eq!(
        HexU32Be::from_hex("1234567"),
        Err(Error::CodecLength { len: 7, max: 8 })
    );
    assert_eq!(
        HexU32Be::from_hex("1234567890"),
        Err(Error::CodecLength { len: 10, max: 8 })
    );
    assert_eq!(
        HexU32Be::from_hex("0000000g"),
        Err(Error::CodecHex { position: 7 })
    );
    assert_eq!(
        HexU32Be::from_hex("x0000000"),
        Err(Error::CodecHex { position: 0 })
    );
    // eight bytes, six characters
    assert_eq!(
        HexU32Be::from_hex("«2345«"),
        Err(Error::CodecHex { position: 0 })
    );
}

#[test]
fn word_refuses_eight_bytes_that_end_in_one_character() {
    // six digits and one character of two bytes
    assert_eq!("000000é".len(), 8);
    assert_eq!(
        HexU32Be::from_hex("000000é"),
        Err(Error::CodecHex { position: 6 })
    );
    // four digits and one character of four bytes
    assert_eq!("0000😀".len(), 8);
    assert_eq!(
        HexU32Be::from_hex("0000😀"),
        Err(Error::CodecHex { position: 4 })
    );
    // five digits and one character of three bytes
    assert_eq!("00000€".len(), 8);
    assert_eq!(
        HexU32Be::from_hex("00000€"),
        Err(Error::CodecHex { position: 5 })
    );
    // a character of two bytes between digits
    assert_eq!("00000é0".len(), 8);
    assert_eq!(
        HexU32Be::from_hex("00000é0"),
        Err(Error::CodecHex { position: 5 })
    );
    assert_eq!(
        HexU32Be::from_hex("0é00000"),
        Err(Error::CodecHex { position: 1 })
    );
}

#[test]
fn word_writes_eight_digits_most_significant_first() {
    assert_eq!(HexU32Be(1).to_hex(), "00000001");
    assert_eq!(HexU32Be(0x1234_5678).to_hex(), "12345678");
    assert_eq!(HexU32Be(u32::MAX).to_hex(), "ffffffff");
    assert_eq!(HexU32Be(0).to_hex(), "00000000");
    for word in [0u32, 1, 0xff, 0x100, 0xdead_beef, u32::MAX] {
        assert_eq!(HexU32Be::from_hex(&HexU32Be(word).to_hex()), Ok(HexU32Be(word)));
    }
}

#[test]
fn word_bitand_keeps_the_common_bits() {
    assert_eq!(HexU32Be(0b1100) & 0b1010, 0b1000);
    assert_eq!(HexU32Be(0xffff_0000) & 0x00ff_ff00, 0x00ff_0000);
    assert_eq!(HexU32Be(0x1234) & 0, 0);
}
