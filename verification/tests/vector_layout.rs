use rusty_embedder::error::EmbedError;
use rusty_embedder::text::decimal_string;
use rusty_embedder::vector::{deserialize_f32, serialize_f32};

fn bits(v: &[f32]) -> Vec<u32> {
    v.iter().map(|x| x.to_bits()).collect()
}

fn floats(v: Vec<u32>) -> Vec<f32> {
    v.into_iter().map(f32::from_bits).collect()
}

#[test]
fn roundtrips_through_serialize_and_deserialize() {
    let original = vec![1.0f32, -2.5, 0.0, 3.4028235e38, -1.1754944e-38];
    let bytes = serialize_f32(&bits(&original));
    assert_eq!(bytes.len(), original.len() * 4);
    assert_eq!(floats(deserialize_f32(&bytes).unwrap()), original);
}

#[test]
fn matches_known_little_endian_layout() {
    // 1.0f32 in little-endian IEEE-754 bytes is 00 00 80 3F.
    assert_eq!(serialize_f32(&bits(&[1.0f32])), vec![0x00, 0x00, 0x80, 0x3F]);
}

#[test]
fn empty_vector_roundtrips_to_empty_bytes() {
    assert!(serialize_f32(&bits(&[])).is_empty());
    assert_eq!(floats(deserialize_f32(&[]).unwrap()), Vec::<f32>::new());
}

#[test]
fn rejects_byte_length_not_a_multiple_of_four_instead_of_panicking() {
    let err = deserialize_f32(&[0, 1, 2]).unwrap_err();
    assert!(matches!(err, EmbedError::InvalidInput(_)));
}

#[test]
fn misaligned_blob_error_names_its_length() {
    match deserialize_f32(&[1, 2, 3, 4, 5, 6, 7]) {
        Err(EmbedError::InvalidInput(msg)) => assert_eq!(
            msg,
            "byte blob length 7 is not a multiple of 4 (not a valid f32 array)"
        ),
        other => panic!("unexpected result: {:?}", other),
    }
}

#[test]
fn words_are_stored_least_significant_byte_first() {
    assert_eq!(
        serialize_f32(&[0x0403_0201, 0xDDCC_BBAA]),
        vec![0x01, 0x02, 0x03, 0x04, 0xAA, 0xBB, 0xCC, 0xDD]
    );
    assert_eq!(
        deserialize_f32(&[0x01, 0x02, 0x03, 0x04, 0xAA, 0xBB, 0xCC, 0xDD]).unwrap(),
        vec![0x0403_0201, 0xDDCC_BBAA]
    );
}

#[test]
fn bytes_roundtrip_through_deserialize_and_serialize() {
    let blob: Vec<u8> = (0u8..16).map(|b| b.wrapping_mul(37)).collect();
    let words = deserialize_f32(&blob).unwrap();
    assert_eq!(words.len(), 4);
    assert_eq!(serialize_f32(&words), blob);
}

#[test]
fn layout_of_concatenation_is_concatenation_of_layouts() {
    let a = bits(&[0.5f32, -7.25]);
    let b = bits(&[1e-3f32]);
    let mut ab = a.clone();
    ab.extend_from_slice(&b);
    let mut expected = serialize_f32(&a);
    expected.extend_from_slice(&serialize_f32(&b));
    assert_eq!(serialize_f32(&ab), expected);
}

#[test]
fn decimal_formats_like_display() {
    assert_eq!(decimal_string(0), "0");
    assert_eq!(decimal_string(7), "7");
    assert_eq!(decimal_string(10), "10");
    assert_eq!(decimal_string(1203), "1203");
    assert_eq!(decimal_string(usize::MAX), usize::MAX.to_string());
}
