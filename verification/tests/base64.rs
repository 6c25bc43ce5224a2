use yal::b64::{decode, decode_url, encode, encode_url};

#[test]
fn encoding_with_and_without_padding() {
    assert_eq!(encode(b"ab", None), "YWI=");
    assert_eq!(encode(b"ab", Some(true)), "YWI=");
    assert_eq!(encode(b"ab", Some(false)), "YWI");
    assert_eq!(encode(b"hello world~", None), "aGVsbG8gd29ybGR+");
    assert_eq!(encode_url(b"hello world~", None), "aGVsbG8gd29ybGR-");
    assert_eq!(encode_url(&[0xfb, 0xff], None), "-_8=");
    assert_eq!(encode_url(&[0xfb, 0xff], Some(false)), "-_8");
}

#[test]
fn decoding() {
    assert_eq!(decode("YWI=").unwrap(), b"ab".to_vec());
    assert_eq!(decode_url("-_8=").unwrap(), vec![0xfb, 0xff]);
    assert!(decode("YWI").is_err());
    assert!(decode("-_8=").is_err());
    assert!(decode_url("*").is_err());
    let bytes: Vec<u8> = (0u8..=255).collect();
    assert_eq!(decode(&encode(&bytes, None)).unwrap(), bytes);
    assert_eq!(decode_url(&encode_url(&bytes, None)).unwrap(), bytes);
}

#[test]
fn rfc4648_vectors() {
    let cases: [(&[u8], &str); 7] = [
        (b"", ""),
        (b"f", "Zg=="),
        (b"fo", "Zm8="),
        (b"foo", "Zm9v"),
        (b"foob", "Zm9vYg=="),
        (b"fooba", "Zm9vYmE="),
        (b"foobar", "Zm9vYmFy"),
    ];
    for (bytes, text) in cases {
        assert_eq!(encode(bytes, None), text);
        assert_eq!(decode(text).unwrap(), bytes.to_vec());
    }
    assert_eq!(encode(b"f", Some(false)), "Zg");
}

#[test]
fn round_trips_for_every_length() {
    for n in 0..40usize {
        let bytes: Vec<u8> = (0..n).map(|i| (i * 37 + 11) as u8).collect();
        assert_eq!(decode(&encode(&bytes, None)).unwrap(), bytes);
        assert_eq!(decode_url(&encode_url(&bytes, Some(true))).unwrap(), bytes);
    }
}
