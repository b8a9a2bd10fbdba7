use hex_bytes::Bytes;

fn every_byte() -> Vec<u8> {
    (0..=255u8).collect()
}

fn is_canonical(text: &str) -> bool {
    let raw = text.as_bytes();
    raw.len() >= 2
        && raw.len() % 2 == 0
        && raw[0] == b'0'
        && raw[1] == b'x'
        && raw[2..]
            .iter()
            .all(|b| matches!(b, b'0'..=b'9' | b'a'..=b'f'))
}

#[test]
fn encode_empty_buffer_is_bare_prefix() {
    assert_eq!(Bytes(vec![]).encode(), "0x");
    assert_eq!(Bytes::default().encode(), "0x");
}

#[test]
fn encode_writes_lowercase_digits_in_order() {
    assert_eq!(Bytes(vec![0xDE, 0xAD, 0xBE, 0xEF]).encode(), "0xdeadbeef");
    assert_eq!(Bytes(vec![1, 2, 3, 15, 16]).encode(), "0x0102030f10");
}

#[test]
fn encode_keeps_leading_and_trailing_zero_bytes() {
    assert_eq!(Bytes(vec![0, 0, 1, 0]).encode(), "0x00000100");
    assert_eq!(Bytes(vec![0]).encode(), "0x00");
}

#[test]
fn encode_writes_high_half_first() {
    assert_eq!(Bytes(vec![0x0f]).encode(), "0x0f");
    assert_eq!(Bytes(vec![0xf0]).encode(), "0xf0");
    assert_eq!(Bytes(vec![0x9a]).encode(), "0x9a");
    assert_eq!(Bytes(vec![0xa9]).encode(), "0xa9");
}

#[test]
fn encode_every_byte_value() {
    let text = Bytes(every_byte()).encode();
    let mut expected = String::from("0x");
    for b in 0..=255u8 {
        expected.push_str(&format!("{:02x}", b));
    }
    assert_eq!(text, expected);
}

#[test]
fn encode_is_canonical_for_sample_buffers() {
    let samples: Vec<Vec<u8>> = vec![
        vec![],
        vec![0],
        vec![0xff],
        vec![0xAB, 0xCD, 0xEF],
        every_byte(),
        vec![0x5a; 1000],
    ];
    for sample in samples {
        let text = Bytes(sample.clone()).encode();
        assert!(is_canonical(&text), "not canonical: {}", text);
        assert_eq!(text.len(), 2 + 2 * sample.len());
    }
}

#[test]
fn encode_is_deterministic() {
    let bytes = Bytes(vec![7, 8, 9, 0xfe]);
    assert_eq!(bytes.encode(), bytes.encode());
    assert_eq!(bytes.encode(), bytes.clone().encode());
}

#[test]
fn encode_agrees_with_the_hex_crate() {
    let data = every_byte();
    assert_eq!(Bytes(data.clone()).encode(), format!("0x{}", hex::encode(&data)));
}

#[test]
fn encode_differs_for_different_buffers() {
    assert_ne!(Bytes(vec![0x01, 0x10]).encode(), Bytes(vec![0x10, 0x01]).encode());
    assert_ne!(Bytes(vec![0]).encode(), Bytes(vec![0, 0]).encode());
    assert_ne!(Bytes(vec![]).encode(), Bytes(vec![0]).encode());
}
