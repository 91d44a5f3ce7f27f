use mining_bridge::coinbase::{coinbase_head, coinbase_tail, write_compact_size};

#[test]
fn compact_size_takes_one_byte_below_253() {
    assert_eq!(write_compact_size(0), vec![0x00]);
    assert_eq!(write_compact_size(1), vec![0x01]);
    assert_eq!(write_compact_size(252), vec![0xfc]);
}

#[test]
fn compact_size_takes_three_bytes_up_to_65535() {
    assert_eq!(write_compact_size(253), vec![0xfd, 0xfd, 0x00]);
    assert_eq!(write_compact_size(0x1234), vec![0xfd, 0x34, 0x12]);
    assert_eq!(write_compact_size(0xffff), vec![0xfd, 0xff, 0xff]);
}

#[test]
fn compact_size_takes_five_bytes_up_to_32_bits() {
    assert_eq!(write_compact_size(0x1_0000), vec![0xfe, 0x00, 0x00, 0x01, 0x00]);
    assert_eq!(
        write_compact_size(0x1234_5678),
        vec![0xfe, 0x78, 0x56, 0x34, 0x12]
    );
    assert_eq!(
        write_compact_size(0xffff_ffff),
        vec![0xfe, 0xff, 0xff, 0xff, 0xff]
    );
}

#[test]
fn compact_size_takes_nine_bytes_above_32_bits() {
    assert_eq!(
        write_compact_size(0x1_0000_0000),
        vec![0xff, 0x00, 0x00, 0x00, 0x00, 0x01, 0x00, 0x00, 0x00]
    );
    assert_eq!(
        write_compact_size(0x0102_0304_0506_0708),
        vec![0xff, 0x08, 0x07, 0x06, 0x05, 0x04, 0x03, 0x02, 0x01]
    );
    assert_eq!(write_compact_size(u64::MAX), vec![0xff; 9]);
}

#[test]
fn head_ends_where_the_extranonce_begins() {
    let head = coinbase_head(2, &[0x03, 0x12, 0x9e, 0x0b], 8);
    let mut expected = vec![0x02, 0x00, 0x00, 0x00, 0x01];
    expected.extend_from_slice(&[0x00; 32]);
    expected.extend_from_slice(&[0xff; 4]);
    expected.push(12);
    expected.extend_from_slice(&[0x03, 0x12, 0x9e, 0x0b]);
    assert_eq!(head, expected);
    assert_eq!(head.len(), 4 + 1 + 36 + 1 + 4);
}

#[test]
fn head_of_an_empty_prefix() {
    let head = coinbase_head(0x0102_0304, &[], 0);
    let mut expected = vec![0x04, 0x03, 0x02, 0x01, 0x01];
    expected.extend_from_slice(&[0x00; 32]);
    expected.extend_from_slice(&[0xff; 4]);
    expected.push(0);
    assert_eq!(head, expected);
}

#[test]
fn head_of_a_long_script_has_a_long_length() {
    let prefix = vec![0xaa; 250];
    let head = coinbase_head(1, &prefix, 32);
    assert_eq!(&head[41..44], &[0xfd, 0x1a, 0x01]);
    assert_eq!(&head[44..], &prefix[..]);
}

#[test]
fn tail_begins_where_the_extranonce_ends() {
    let outputs = vec![0xde, 0xad, 0xbe, 0xef];
    let tail = coinbase_tail(0xffff_fffe, 1, &outputs, 0x0000_0102);
    assert_eq!(
        tail,
        vec![0xfe, 0xff, 0xff, 0xff, 0x01, 0xde, 0xad, 0xbe, 0xef, 0x02, 0x01, 0x00, 0x00]
    );
    assert_eq!(
        coinbase_tail(0, 0, &[], 0),
        vec![0, 0, 0, 0, 0, 0, 0, 0, 0]
    );
    assert_eq!(
        coinbase_tail(1, 300, &[], 2),
        vec![1, 0, 0, 0, 0xfd, 0x2c, 0x01, 2, 0, 0, 0]
    );
}
