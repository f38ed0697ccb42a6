//! Signed, time-bounded session tokens.
//!
//! A token is the ASCII text `P.S`, where `P` is the lowercase hex of the
//! claims (issued-at and expiry as big-endian 64-bit seconds, then the
//! subject's bytes) and `S` is the lowercase hex of the HMAC-SHA256 of `P`
//! under the signing secret. The signature is checked before anything in
//! `P` is read, so a change anywhere in a token is met with `BadSignature`,
//! short of a change to `P` that keeps its HMAC tag.

use crate::encoding::{
    be_bytes, be_value, decode_hex, hex_decode, hex_of, is_hex_char, lemma_be_round_trip,
    lemma_hex_decode_unique, lemma_hex_round_trip, push_be_u64, push_hex, read_be_u64,
};
use hmac::Mac;
use vstd::prelude::*;
use vstd::slice::{slice_subrange, slice_to_vec};

verus! {

/// How long an issued token stays valid, in seconds.
pub const TOKEN_VALIDITY_SECS: u64 = 86400;

/// The byte that separates the claims from the signature.
pub const SEPARATOR: u8 = 46;

/// Why a presented token was not accepted.
#[derive(Clone, Copy, Debug, PartialEq, Eq, Structural)]
pub enum TokenError {
    /// The signature is missing or does not match the claims.
    BadSignature,
    /// The signature matches but the token's validity window has passed.
    Expired,
    /// The signature matches but the claims are not in the expected shape.
    Malformed,
}

/// The HMAC-SHA256 tag of `msg` under `key`.
pub uninterp spec fn hmac_of(key: Seq<u8>, msg: Seq<u8>) -> Seq<u8>;

/// Relies on hmac's `Hmac<Sha256>`: `new_from_slice`, which accepts a key of
/// any length, then `update` and `finalize`, whose output is 32 bytes.
#[verifier::external_body]
fn hmac_sha256(key: &[u8], msg: &[u8]) -> (r: Vec<u8>)
    ensures
        r@ == hmac_of(key@, msg@),
        r@.len() == 32,
{
    let mut m = <hmac::Hmac<sha2::Sha256> as Mac>::new_from_slice(key).expect(
        "HMAC takes keys of any length",
    );
    m.update(msg);
    m.finalize().into_bytes().to_vec()
}

/// Relies on hmac's `Mac::verify_slice`: it recomputes the tag of `msg` under
/// `key` and compares it with `tag`, length included, in constant time.
#[verifier::external_body]
fn hmac_sha256_matches(key: &[u8], msg: &[u8], tag: &[u8]) -> (r: bool)
    ensures
        r == (tag@ == hmac_of(key@, msg@)),
{
    let mut m = <hmac::Hmac<sha2::Sha256> as Mac>::new_from_slice(key).expect(
        "HMAC takes keys of any length",
    );
    m.update(msg);
    m.verify_slice(tag).is_ok()
}

/// The claims of a token for `subject` issued at `iat`.
pub open spec fn claims_of(subject: Seq<u8>, iat: u64) -> Seq<u8> {
    be_bytes(iat) + be_bytes((iat + TOKEN_VALIDITY_SECS) as u64) + subject
}

/// The token issued for `subject` at `iat` under `key`.
pub open spec fn token_of(key: Seq<u8>, subject: Seq<u8>, iat: u64) -> Seq<u8> {
    let p = hex_of(claims_of(subject, iat));
    p + seq![SEPARATOR] + hex_of(hmac_of(key, p))
}

/// Whether `s` holds no separator byte.
pub open spec fn separator_free(s: Seq<u8>) -> bool {
    forall|i: int| 0 <= i < s.len() ==> s[i] != SEPARATOR
}

/// Whether `i` is the position of the first separator in `t`.
pub open spec fn is_first_separator(t: Seq<u8>, i: int) -> bool {
    0 <= i < t.len() && t[i] == SEPARATOR && separator_free(t.subrange(0, i))
}

/// The part of `t` before its first separator, and the part after it.
pub open spec fn split_token(t: Seq<u8>) -> Option<(Seq<u8>, Seq<u8>)> {
    if exists|i: int| is_first_separator(t, i) {
        let i = choose|i: int| is_first_separator(t, i);
        Some((t.subrange(0, i), t.subrange(i + 1, t.len() as int)))
    } else {
        None
    }
}

/// Whether the signature part of `t` is the tag of its claims part under `key`.
pub open spec fn signature_holds(key: Seq<u8>, t: Seq<u8>) -> bool {
    match split_token(t) {
        Some((p, s)) => hex_decode(s) == Some(hmac_of(key, p)),
        None => false,
    }
}

/// What checking the token `t` under `key` at time `now` gives: the subject,
/// or why the token is refused. The signature comes first; a token is
/// expired from the instant its expiry is reached.
pub open spec fn token_check(key: Seq<u8>, t: Seq<u8>, now: u64) -> Result<Seq<u8>, TokenError> {
    if !signature_holds(key, t) {
        Err(TokenError::BadSignature)
    } else {
        match hex_decode(split_token(t).unwrap().0) {
            None => Err(TokenError::Malformed),
            Some(c) => if c.len() < 16 {
                Err(TokenError::Malformed)
            } else if now >= be_value(c.subrange(8, 16)) {
                Err(TokenError::Expired)
            } else {
                Ok(c.subrange(16, c.len() as int))
            },
        }
    }
}

proof fn lemma_first_separator_unique(t: Seq<u8>, i: int, j: int)
    requires
        is_first_separator(t, i),
        is_first_separator(t, j),
    ensures
        i == j,
{
    if i < j {
        assert(t.subrange(0, j)[i] == t[i]);
    } else if j < i {
        assert(t.subrange(0, i)[j] == t[j]);
    }
}

proof fn lemma_split_at(t: Seq<u8>, i: int)
    requires
        is_first_separator(t, i),
    ensures
        split_token(t) == Some((t.subrange(0, i), t.subrange(i + 1, t.len() as int))),
{
    let k = choose|k: int| is_first_separator(t, k);
    lemma_first_separator_unique(t, i, k);
}

proof fn lemma_hex_separator_free(s: Seq<u8>)
    ensures
        separator_free(hex_of(s)),
{
    lemma_hex_round_trip(s);
    let h = hex_of(s);
    assert forall|i: int| 0 <= i < h.len() implies h[i] != SEPARATOR by {
        assert(is_hex_char(h[i]));
    }
}

/// Where the first separator of an issued token stands, and what lies on
/// either side of it.
proof fn lemma_split_issued(key: Seq<u8>, subject: Seq<u8>, iat: u64)
    ensures
        ({
            let p = hex_of(claims_of(subject, iat));
            split_token(token_of(key, subject, iat)) == Some((p, hex_of(hmac_of(key, p))))
        }),
{
    let p = hex_of(claims_of(subject, iat));
    let t = token_of(key, subject, iat);
    lemma_hex_separator_free(claims_of(subject, iat));
    assert(t.subrange(0, p.len() as int) =~= p);
    assert(t.subrange(p.len() + 1 as int, t.len() as int) =~= hex_of(hmac_of(key, p)));
    lemma_split_at(t, p.len() as int);
}

/// A token issued at `iat` is accepted, with its subject, at every time
/// before `iat + TOKEN_VALIDITY_SECS`, and refused as expired from then on.
pub proof fn lemma_issued_token_lifetime(key: Seq<u8>, subject: Seq<u8>, iat: u64, elapsed: u64)
    requires
        iat + TOKEN_VALIDITY_SECS <= u64::MAX,
        iat + elapsed <= u64::MAX,
    ensures
        elapsed < TOKEN_VALIDITY_SECS ==> token_check(
            key,
            token_of(key, subject, iat),
            (iat + elapsed) as u64,
        ) == Ok::<Seq<u8>, TokenError>(subject),
        elapsed >= TOKEN_VALIDITY_SECS ==> token_check(
            key,
            token_of(key, subject, iat),
            (iat + elapsed) as u64,
        ) == Err::<Seq<u8>, TokenError>(TokenError::Expired),
{
    let c = claims_of(subject, iat);
    let p = hex_of(c);
    lemma_split_issued(key, subject, iat);
    lemma_hex_round_trip(hmac_of(key, p));
    lemma_hex_round_trip(c);
    let exp = (iat + TOKEN_VALIDITY_SECS) as u64;
    lemma_be_round_trip(exp);
    assert(c.subrange(8, 16) =~= be_bytes(exp));
    assert(c.subrange(16, c.len() as int) =~= subject);
}

/// Changing one byte of the signature part of an issued token, or its
/// separator, makes it fail with `BadSignature`. Changing one byte of its
/// claims part does too, unless the altered claims happen to carry the same
/// HMAC tag as the original ones.
pub proof fn lemma_tampered_token_refused(
    key: Seq<u8>,
    subject: Seq<u8>,
    iat: u64,
    now: u64,
    at: int,
    b: u8,
)
    requires
        0 <= at < token_of(key, subject, iat).len(),
        b != token_of(key, subject, iat)[at],
        ({
            let p = hex_of(claims_of(subject, iat));
            at < p.len() && b != SEPARATOR ==> hmac_of(key, p.update(at, b)) != hmac_of(key, p)
        }),
    ensures
        token_check(key, token_of(key, subject, iat).update(at, b), now) == Err::<
            Seq<u8>,
            TokenError,
        >(TokenError::BadSignature),
{
    let t = token_of(key, subject, iat);
    let t2 = t.update(at, b);
    let p = hex_of(claims_of(subject, iat));
    let sig = hex_of(hmac_of(key, p));
    let n = p.len() as int;
    lemma_split_issued(key, subject, iat);
    lemma_hex_separator_free(claims_of(subject, iat));
    lemma_hex_separator_free(hmac_of(key, p));
    lemma_hex_round_trip(hmac_of(key, p));
    assert(t.subrange(0, n) =~= p);
    assert(t.subrange(n + 1, t.len() as int) =~= sig);
    if at > n {
        assert(t2.subrange(0, n) =~= p);
        lemma_split_at(t2, n);
        let s2 = t2.subrange(n + 1, t2.len() as int);
        assert(s2[at - n - 1] == b);
        assert(sig[at - n - 1] == t[at]);
        if hex_decode(s2) == Some(hmac_of(key, p)) {
            lemma_hex_decode_unique(s2);
        }
    } else if at == n {
        assert forall|i: int| !is_first_separator(t2, i) by {
            if is_first_separator(t2, i) {
                if i < n {
                    assert(p[i] == t2[i]);
                } else if i > n {
                    assert(sig[i - n - 1] == t2[i]);
                }
            }
        }
    } else if b == SEPARATOR {
        assert(t2.subrange(0, at) =~= p.subrange(0, at));
        assert(separator_free(t2.subrange(0, at))) by {
            assert forall|i: int| 0 <= i < at implies t2.subrange(0, at)[i] != SEPARATOR by {
                assert(p[i] == t2[i]);
            }
        }
        lemma_split_at(t2, at);
        let s2 = t2.subrange(at + 1, t2.len() as int);
        assert(s2[n - at - 1] == SEPARATOR);
        assert(!is_hex_char(s2[n - at - 1]));
    } else {
        let p2 = t2.subrange(0, n);
        assert(p2 =~= p.update(at, b));
        assert(separator_free(p2)) by {
            assert forall|i: int| 0 <= i < n implies p2[i] != SEPARATOR by {
                if i != at {
                    assert(p2[i] == p[i]);
                }
            }
        }
        lemma_split_at(t2, n);
        assert(t2.subrange(n + 1, t2.len() as int) =~= sig);
        assert(p2[at] != p[at]);
        if hex_decode(sig) == Some(hmac_of(key, p2)) {
            assert(hmac_of(key, p2) == hmac_of(key, p));
            assert(p2 == p.update(at, b));
        }
    }
}

/// Issues the token for `subject` at time `now`, signed with `key`.
pub fn issue(key: &[u8], subject: &[u8], now: u64) -> (r: Vec<u8>)
    requires
        now + TOKEN_VALIDITY_SECS <= u64::MAX,
    ensures
        r@ == token_of(key@, subject@, now),
{
    let mut claims: Vec<u8> = Vec::new();
    push_be_u64(&mut claims, now);
    push_be_u64(&mut claims, now + TOKEN_VALIDITY_SECS);
    let mut rest = slice_to_vec(subject);
    claims.append(&mut rest);
    assert(claims@ =~= claims_of(subject@, now));
    let mut t: Vec<u8> = Vec::new();
    push_hex(&mut t, claims.as_slice());
    let tag = hmac_sha256(key, t.as_slice());
    t.push(SEPARATOR);
    push_hex(&mut t, tag.as_slice());
    t
}

/// Finds the first separator of `t`.
fn find_separator(t: &[u8]) -> (r: Option<usize>)
    ensures
        r matches Some(i) ==> is_first_separator(t@, i as int),
        r is None ==> !exists|i: int| is_first_separator(t@, i),
{
    let mut i: usize = 0;
    while i < t.len()
        invariant
            0 <= i <= t@.len(),
            separator_free(t@.subrange(0, i as int)),
        decreases t.len() - i,
    {
        if t[i] == SEPARATOR {
            return Some(i);
        }
        assert(t@.subrange(0, i + 1) =~= t@.subrange(0, i as int).push(t@[i as int]));
        i = i + 1;
    }
    assert(t@.subrange(0, t@.len() as int) =~= t@);
    assert forall|i: int| !is_first_separator(t@, i) by {
        if 0 <= i < t@.len() {
            assert(t@[i] != SEPARATOR);
        }
    }
    None
}

/// Checks the token `t` under `key` at time `now`, giving its subject.
pub fn verify(key: &[u8], t: &[u8], now: u64) -> (r: Result<Vec<u8>, TokenError>)
    ensures
        r matches Ok(s) ==> token_check(key@, t@, now) == Ok::<Seq<u8>, TokenError>(s@),
        r matches Err(e) ==> token_check(key@, t@, now) == Err::<Seq<u8>, TokenError>(e),
{
    let i = match find_separator(t) {
        Some(i) => i,
        None => return Err(TokenError::BadSignature),
    };
    proof {
        lemma_split_at(t@, i as int);
    }
    let len = t.len();
    assert(i < len);
    let tag = match decode_hex(t, i + 1, len) {
        Some(tag) => tag,
        None => return Err(TokenError::BadSignature),
    };
    let p = slice_subrange(t, 0, i);
    if !hmac_sha256_matches(key, p, tag.as_slice()) {
        return Err(TokenError::BadSignature);
    }
    let claims = match decode_hex(t, 0, i) {
        Some(c) => c,
        None => return Err(TokenError::Malformed),
    };
    if claims.len() < 16 {
        return Err(TokenError::Malformed);
    }
    let exp = read_be_u64(claims.as_slice(), 8);
    if now >= exp {
        return Err(TokenError::Expired);
    }
    let s = slice_to_vec(slice_subrange(claims.as_slice(), 16, claims.len()));
    Ok(s)
}

} // verus!
