use base64::Engine;
use session_core::ui::png_data_uri;
use session_core::encoding::{base32_encode, base64_encode};

#[test]
fn base32_matches_reference_crate() {
    let data: Vec<u8> = b"12345".to_vec();
    assert_eq!(base32_encode(&data), "GEZDGNBV");
    let longer: Vec<u8> = (0u8..20).collect();
    let expected = base32::encode(base32::Alphabet::RFC4648 { padding: false }, &longer);
    assert_eq!(base32_encode(&longer), expected);
}

#[test]
fn base32_of_empty_is_empty() {
    assert_eq!(base32_encode(&Vec::new()), "");
}

#[test]
fn base64_known_vectors() {
    assert_eq!(base64_encode(&Vec::new()), "");
    assert_eq!(base64_encode(&b"f".to_vec()), "Zg==");
    assert_eq!(base64_encode(&b"fo".to_vec()), "Zm8=");
    assert_eq!(base64_encode(&b"foo".to_vec()), "Zm9v");
    assert_eq!(base64_encode(&b"foob".to_vec()), "Zm9vYg==");
    assert_eq!(base64_encode(&b"fooba".to_vec()), "Zm9vYmE=");
    assert_eq!(base64_encode(&b"foobar".to_vec()), "Zm9vYmFy");
}

#[test]
fn base64_matches_reference_crate() {
    let engine = base64::engine::general_purpose::STANDARD;
    for len in 0..40usize {
        let data: Vec<u8> = (0..len).map(|i| (i * 37 + 11) as u8).collect();
        assert_eq!(base64_encode(&data), engine.encode(&data));
    }
}

#[test]
fn data_uri_has_prefix_and_payload() {
    let png: Vec<u8> = vec![0x89, b'P', b'N', b'G'];
    let uri = png_data_uri(&png);
    assert_eq!(uri, format!("data:image/png;base64,{}", base64_encode(&png)));
}
