use auth_backend::b64::{b64_decode_exec, b64_encode_exec};

#[test]
fn encode_known_values() {
    assert_eq!(b64_encode_exec(&b"hello".to_vec()), b"aGVsbG8".to_vec());
    assert_eq!(b64_encode_exec(&b"".to_vec()), b"".to_vec());
    assert_eq!(b64_encode_exec(&b"M".to_vec()), b"TQ".to_vec());
    assert_eq!(b64_encode_exec(&b"Ma".to_vec()), b"TWE".to_vec());
    // Bytes that exercise the two url-safe alphabet characters.
    assert_eq!(b64_encode_exec(&vec![0xfb, 0xff]), b"-_8".to_vec());
}

#[test]
fn decode_inverts_encode() {
    let cases: Vec<Vec<u8>> = vec![
        b"".to_vec(),
        b"a".to_vec(),
        b"ab".to_vec(),
        b"abc".to_vec(),
        b"abcd".to_vec(),
        vec![0, 255, 7, 128, 63, 64, 1],
    ];
    for c in cases {
        let enc = b64_encode_exec(&c);
        assert_eq!(b64_decode_exec(&enc), Some(c));
    }
}

#[test]
fn decode_rejects_junk() {
    // A padding character is not part of this alphabet.
    assert_eq!(b64_decode_exec(&b"TQ==".to_vec()), None);
    // Length 1 mod 4 can never be produced.
    assert_eq!(b64_decode_exec(&b"TQEEE".to_vec()), None);
    // Non-canonical tail bits: "TR" decodes loosely to the same byte as
    // "TQ" but does not re-encode to itself.
    assert_eq!(b64_decode_exec(&b"TR".to_vec()), None);
    assert_eq!(b64_decode_exec(&b"T".to_vec()), None);
}
