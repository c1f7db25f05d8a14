use crumbeez::base64::base64_decode_bytes;
use crumbeez::{base64_decode, base64_encode};

#[test]
fn known_encodings() {
    assert_eq!(base64_encode(b""), "");
    assert_eq!(base64_encode(b"f"), "Zg==");
    assert_eq!(base64_encode(b"fo"), "Zm8=");
    assert_eq!(base64_encode(b"foo"), "Zm9v");
    assert_eq!(base64_encode(b"foob"), "Zm9vYg==");
    assert_eq!(base64_encode(b"fooba"), "Zm9vYmE=");
    assert_eq!(base64_encode(b"foobar"), "Zm9vYmFy");
    assert_eq!(base64_encode(&[0xfb, 0xff, 0xbe]), "+/++");
    assert_eq!(base64_encode(&[0, 0, 0]), "AAAA");
    assert_eq!(base64_encode(&[0xff]), "/w==");
}

#[test]
fn known_decodings() {
    assert_eq!(base64_decode(""), Some(vec![]));
    assert_eq!(base64_decode("Zg=="), Some(b"f".to_vec()));
    assert_eq!(base64_decode("Zm8="), Some(b"fo".to_vec()));
    assert_eq!(base64_decode("Zm9v"), Some(b"foo".to_vec()));
    assert_eq!(base64_decode("Zm9vYmFy"), Some(b"foobar".to_vec()));
    assert_eq!(base64_decode("+/++"), Some(vec![0xfb, 0xff, 0xbe]));
}

#[test]
fn decoding_skips_what_is_no_letter() {
    assert_eq!(base64_decode("  Zm9v\nYmFy\n"), Some(b"foobar".to_vec()));
    assert_eq!(base64_decode("Zm9v!é😀YmFy"), Some(b"foobar".to_vec()));
    assert_eq!(base64_decode("Zg"), Some(b"f".to_vec()));
    assert_eq!(base64_decode("Z"), Some(vec![]));
    assert_eq!(base64_decode("===="), Some(vec![]));
    assert_eq!(base64_decode_bytes(&[b'Z', 0xff, b'g', 0x80]), b"f".to_vec());
}

#[test]
fn every_length_round_trips() {
    let data: Vec<u8> = (0..=255u8).chain((0..=255u8).rev()).collect();
    for len in 0..data.len() {
        let text = base64_encode(&data[..len]);
        assert_eq!(text.len(), (len + 2) / 3 * 4);
        assert_eq!(base64_decode(&text), Some(data[..len].to_vec()));
    }
}
