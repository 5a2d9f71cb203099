use dht_storage::hexcode::{decode_hex, encode_hex};

#[test]
fn encode_hex_writes_two_lower_case_digits_per_byte() {
    assert_eq!(encode_hex(&[]), "");
    assert_eq!(encode_hex(&[0x00]), "00");
    assert_eq!(encode_hex(&[1, 2, 3, 15, 16]), "0102030f10");
    assert_eq!(encode_hex(&[0xf9, 0xb4, 0xca]), "f9b4ca");
    assert_eq!(encode_hex(b"Hello world!"), "48656c6c6f20776f726c6421");
}

#[test]
fn decode_hex_reads_both_cases() {
    assert_eq!(decode_hex(""), Some(vec![]));
    assert_eq!(decode_hex("f9b4ca"), Some(vec![0xf9, 0xb4, 0xca]));
    assert_eq!(decode_hex("F9B4CA"), Some(vec![0xf9, 0xb4, 0xca]));
    assert_eq!(decode_hex("f9B4Ca"), Some(vec![0xf9, 0xb4, 0xca]));
    assert_eq!(decode_hex("0102030f10"), Some(vec![1, 2, 3, 15, 16]));
}

#[test]
fn decode_hex_refuses_odd_lengths_and_other_characters() {
    assert_eq!(decode_hex("123"), None);
    assert_eq!(decode_hex("f"), None);
    assert_eq!(decode_hex("foo"), None);
    assert_eq!(decode_hex("zz"), None);
    assert_eq!(decode_hex("0x12"), None);
    assert_eq!(decode_hex("12 4"), None);
    assert_eq!(decode_hex("éé"), None);
    assert_eq!(decode_hex("é"), None);
}

#[test]
fn decode_hex_undoes_encode_hex() {
    let all: Vec<u8> = (0..=255u8).collect();
    assert_eq!(decode_hex(&encode_hex(&all)), Some(all));
}
