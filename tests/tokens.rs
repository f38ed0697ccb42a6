use auth_gateway::encoding::{decode_hex, push_be_u64, push_hex, read_be_u64};
use auth_gateway::token::{issue, verify, TokenError, TOKEN_VALIDITY_SECS};
use hmac::Mac;

fn hmac_hex(key: &[u8], msg: &[u8]) -> Vec<u8> {
    let mut m = <hmac::Hmac<sha2::Sha256> as Mac>::new_from_slice(key).unwrap();
    m.update(msg);
    let tag = m.finalize().into_bytes().to_vec();
    let mut out = Vec::new();
    push_hex(&mut out, &tag);
    out
}

#[test]
fn hex_of_bytes_is_lowercase_pairs() {
    let mut out = b"x".to_vec();
    push_hex(&mut out, &[0x00, 0x9f, 0xa5, 0xff]);
    assert_eq!(out, b"x009fa5ff".to_vec());
}

#[test]
fn hex_decodes_lowercase_only() {
    assert_eq!(decode_hex(b"..009fa5ff", 2, 10), Some(vec![0x00, 0x9f, 0xa5, 0xff]));
    assert_eq!(decode_hex(b"9FA5", 0, 4), None);
    assert_eq!(decode_hex(b"abc", 0, 3), None);
    assert_eq!(decode_hex(b"zz", 0, 2), None);
    assert_eq!(decode_hex(b"", 0, 0), Some(vec![]));
}

#[test]
fn big_endian_round_trip() {
    let mut out = Vec::new();
    push_be_u64(&mut out, 0x0102030405060708);
    assert_eq!(out, vec![1, 2, 3, 4, 5, 6, 7, 8]);
    assert_eq!(read_be_u64(&out, 0), 0x0102030405060708);
    push_be_u64(&mut out, u64::MAX);
    assert_eq!(read_be_u64(&out, 8), u64::MAX);
}

#[test]
fn issued_token_has_expected_text() {
    let t = issue(b"secret", b"alice", 1000);
    let mut claims = Vec::new();
    push_be_u64(&mut claims, 1000);
    push_be_u64(&mut claims, 1000 + TOKEN_VALIDITY_SECS);
    claims.extend_from_slice(b"alice");
    let mut expected = Vec::new();
    push_hex(&mut expected, &claims);
    let sig = hmac_hex(b"secret", &expected);
    assert_eq!(sig.len(), 64);
    expected.push(b'.');
    expected.extend_from_slice(&sig);
    assert_eq!(t, expected);
}

#[test]
fn token_valid_within_window() {
    let t = issue(b"secret", b"alice", 1000);
    assert_eq!(verify(b"secret", &t, 1000), Ok(b"alice".to_vec()));
    assert_eq!(verify(b"secret", &t, 1000 + TOKEN_VALIDITY_SECS - 1), Ok(b"alice".to_vec()));
}

#[test]
fn token_expires_at_window_end() {
    let t = issue(b"secret", b"alice", 1000);
    assert_eq!(verify(b"secret", &t, 1000 + TOKEN_VALIDITY_SECS), Err(TokenError::Expired));
    assert_eq!(verify(b"secret", &t, u64::MAX), Err(TokenError::Expired));
}

#[test]
fn token_with_empty_subject() {
    let t = issue(b"k", b"", 0);
    assert_eq!(verify(b"k", &t, 5), Ok(vec![]));
}

#[test]
fn tampering_any_byte_gives_bad_signature() {
    let t = issue(b"secret", b"alice", 1000);
    for i in 0..t.len() {
        for b in [b'0', b'a', b'f', b'.', b'X'] {
            if t[i] == b {
                continue;
            }
            let mut t2 = t.clone();
            t2[i] = b;
            assert_eq!(verify(b"secret", &t2, 1001), Err(TokenError::BadSignature), "byte {}", i);
        }
    }
}

#[test]
fn other_key_gives_bad_signature() {
    let t = issue(b"secret", b"alice", 1000);
    assert_eq!(verify(b"other", &t, 1001), Err(TokenError::BadSignature));
}

#[test]
fn missing_or_short_signature_is_bad() {
    assert_eq!(verify(b"k", b"", 0), Err(TokenError::BadSignature));
    assert_eq!(verify(b"k", b"00ff", 0), Err(TokenError::BadSignature));
    assert_eq!(verify(b"k", b"00ff.00", 0), Err(TokenError::BadSignature));
}

#[test]
fn signed_but_unreadable_claims_are_malformed() {
    let mut t = b"zz".to_vec();
    let sig = hmac_hex(b"k", b"zz");
    t.push(b'.');
    t.extend_from_slice(&sig);
    assert_eq!(verify(b"k", &t, 0), Err(TokenError::Malformed));

    let mut short = b"0011".to_vec();
    let sig = hmac_hex(b"k", b"0011");
    short.push(b'.');
    short.extend_from_slice(&sig);
    assert_eq!(verify(b"k", &short, 0), Err(TokenError::Malformed));
}
