use b64dec::alphabet::decode_symbol;
use b64dec::b64_decode;
use b64dec::b64_decode_prune;
use b64dec::pack::pack_group;

/// Decode `s` with a fresh output buffer of the documented minimum size
/// and return the trimmed payload.
fn decode_str(s: &str) -> Vec<u8> {
    let input = s.as_bytes();
    let mut out = vec![0u8; (input.len() + 7) / 8 * 6 + 2];
    let n = b64_decode_prune(input, &mut out);
    out.truncate(n);
    out
}

#[test]
fn empty_input() {
    let mut out = vec![0u8; 2];
    let n = b64_decode_prune(&[], &mut out);
    assert_eq!(n, 0);
}

#[test]
fn two_padding_chars() {
    assert_eq!(decode_str("QQ=="), vec![0x41]);
}

#[test]
fn one_padding_char() {
    assert_eq!(decode_str("Zm8="), b"fo".to_vec());
}

#[test]
fn no_padding() {
    assert_eq!(decode_str("QUJD"), vec![0x41, 0x42, 0x43]);
}

#[test]
fn round_trip_vectors() {
    assert_eq!(decode_str(""), b"".to_vec());
    assert_eq!(decode_str("Zg=="), b"f".to_vec());
    assert_eq!(decode_str("Zm8="), b"fo".to_vec());
    assert_eq!(decode_str("Zm9v"), b"foo".to_vec());
    assert_eq!(decode_str("Zm9vYg=="), b"foob".to_vec());
    assert_eq!(decode_str("Zm9vYmE="), b"fooba".to_vec());
    assert_eq!(decode_str("Zm9vYmFy"), b"foobar".to_vec());
}

#[test]
fn multi_unit_input() {
    assert_eq!(
        decode_str("TWFueSBoYW5kcyBtYWtlIGxpZ2h0IHdvcmsu"),
        b"Many hands make light work.".to_vec()
    );
}

#[test]
fn url_safe_equivalence() {
    assert_eq!(decode_str("-_-_"), decode_str("+/+/"));
    assert_eq!(decode_str("PDw_Pz8-"), decode_str("PDw/Pz8+"));
    assert_eq!(decode_str("PDw/Pz8+"), b"<<???>".to_vec());
}

#[test]
fn raw_count_ignores_padding() {
    let input = b"QQ==";
    let mut out = vec![0u8; 8];
    let n = b64_decode(input, &mut out);
    assert_eq!(n, 3);
    assert_eq!(out[0], 0x41);
}

#[test]
fn classification_table() {
    let standard: &[u8] = b"ABCDEFGHIJKLMNOPQRSTUVWXYZabcdefghijklmnopqrstuvwxyz0123456789+/";
    let mut seen = [false; 64];
    for (v, &c) in standard.iter().enumerate() {
        let got = decode_symbol(c);
        assert_eq!(got as usize, v);
        assert!(!seen[got as usize]);
        seen[got as usize] = true;
    }
    assert!(seen.iter().all(|&s| s));
    assert_eq!(decode_symbol(b'='), 0);
    assert_eq!(decode_symbol(b'-'), 62);
    assert_eq!(decode_symbol(b'_'), 63);
}

#[test]
fn packing_of_known_values() {
    // "QUJD": values 16, 20, 9, 3 repack to b"ABC"
    let (b0, b1, b2) = pack_group(16, 20, 9, 3);
    assert_eq!((b0, b1, b2), (0x41, 0x42, 0x43));
}

#[test]
fn minimum_buffer_suffices() {
    let input = b"Zm9vYmFy";
    let mut out = vec![0u8; (input.len() + 7) / 8 * 6 + 2];
    assert_eq!(out.len(), 8);
    let n = b64_decode_prune(input, &mut out);
    assert_eq!(n, 6);
    assert_eq!(&out[..6], b"foobar");
}

#[test]
fn slack_bytes_keep_old_values() {
    let input = b"QUJD";
    let mut out = vec![0xEEu8; 8];
    let n = b64_decode_prune(input, &mut out);
    assert_eq!(n, 3);
    assert_eq!(&out[..3], b"ABC");
    assert_eq!(&out[3..], [0xEE; 5]);
}

#[test]
fn trimmed_length_formula() {
    for (s, pad) in [
        ("QUJD", 0usize),
        ("Zm8=", 1),
        ("QQ==", 2),
        ("Zm9vYmFy", 0),
        ("Zm9vYg==", 2),
        ("Zm9vYmE=", 1),
    ] {
        let input = s.as_bytes();
        let mut out = vec![0u8; (input.len() + 7) / 8 * 6 + 2];
        let n = b64_decode_prune(input, &mut out);
        assert_eq!(n, input.len() / 4 * 3 - pad);
    }
}
