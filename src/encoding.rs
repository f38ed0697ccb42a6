//! Byte encodings used in session tokens: lowercase hexadecimal text and
//! big-endian 64-bit integers.

use vstd::prelude::*;

verus! {

/// The ASCII character (as a byte) of the lowercase hex digit `v` (< 16).
pub open spec fn hex_digit(v: u8) -> u8 {
    if v < 10 {
        (48 + v) as u8
    } else {
        (87 + v) as u8
    }
}

/// Whether `c` is a lowercase hex digit.
pub open spec fn is_hex_char(c: u8) -> bool {
    (48 <= c && c <= 57) || (97 <= c && c <= 102)
}

/// The value of the lowercase hex digit `c`.
pub open spec fn hex_value(c: u8) -> u8 {
    if c <= 57 {
        (c - 48) as u8
    } else {
        (c - 87) as u8
    }
}

/// Lowercase hex text of `s`: two digits per byte, high nibble first.
pub open spec fn hex_of(s: Seq<u8>) -> Seq<u8> {
    Seq::new(
        2 * s.len(),
        |i: int|
            if i % 2 == 0 {
                hex_digit(s[i / 2] / 16)
            } else {
                hex_digit(s[i / 2] % 16)
            },
    )
}

/// Whether `t` is lowercase hex text of some byte string.
pub open spec fn is_hex_text(t: Seq<u8>) -> bool {
    t.len() % 2 == 0 && forall|i: int| 0 <= i < t.len() ==> is_hex_char(#[trigger] t[i])
}

/// The bytes that the lowercase hex text `t` denotes, if it is such text.
pub open spec fn hex_decode(t: Seq<u8>) -> Option<Seq<u8>> {
    if is_hex_text(t) {
        Some(
            Seq::new(
                t.len() / 2,
                |i: int| (hex_value(t[2 * i]) * 16 + hex_value(t[2 * i + 1])) as u8,
            ),
        )
    } else {
        None
    }
}

/// Big-endian bytes of `x`.
pub open spec fn be_bytes(x: u64) -> Seq<u8> {
    seq![
        ((x >> 56) & 0xff) as u8,
        ((x >> 48) & 0xff) as u8,
        ((x >> 40) & 0xff) as u8,
        ((x >> 32) & 0xff) as u8,
        ((x >> 24) & 0xff) as u8,
        ((x >> 16) & 0xff) as u8,
        ((x >> 8) & 0xff) as u8,
        (x & 0xff) as u8,
    ]
}

/// The integer whose big-endian bytes are the first eight of `s`.
pub open spec fn be_value(s: Seq<u8>) -> u64
    recommends
        s.len() >= 8,
{
    (s[0] as u64) << 56 | (s[1] as u64) << 48 | (s[2] as u64) << 40 | (s[3] as u64) << 32 | (
    s[4] as u64) << 24 | (s[5] as u64) << 16 | (s[6] as u64) << 8 | (s[7] as u64)
}

proof fn lemma_hex_char_round_trip(v: u8)
    requires
        v < 16,
    ensures
        is_hex_char(hex_digit(v)),
        hex_value(hex_digit(v)) == v,
{
}

proof fn lemma_hex_value_round_trip(c: u8)
    requires
        is_hex_char(c),
    ensures
        hex_value(c) < 16,
        hex_digit(hex_value(c)) == c,
{
}

/// Decoding the hex text of `s` gives back `s`.
pub proof fn lemma_hex_round_trip(s: Seq<u8>)
    ensures
        hex_decode(hex_of(s)) == Some(s),
{
    let t = hex_of(s);
    assert forall|i: int| 0 <= i < t.len() implies is_hex_char(#[trigger] t[i]) by {
        lemma_hex_char_round_trip(s[i / 2] / 16);
        lemma_hex_char_round_trip(s[i / 2] % 16);
    }
    let d = hex_decode(t).unwrap();
    assert forall|i: int| 0 <= i < s.len() implies d[i] == s[i] by {
        assert((2 * i) / 2 == i);
        assert((2 * i + 1) / 2 == i);
        assert((2 * i) % 2 == 0);
        assert((2 * i + 1) % 2 == 1);
        lemma_hex_char_round_trip(s[i] / 16);
        lemma_hex_char_round_trip(s[i] % 16);
    }
    assert(d =~= s);
}

/// Hex text denotes exactly one byte string, and is the hex text of it.
pub proof fn lemma_hex_decode_unique(t: Seq<u8>)
    requires
        hex_decode(t) is Some,
    ensures
        hex_of(hex_decode(t).unwrap()) == t,
{
    let d = hex_decode(t).unwrap();
    let h = hex_of(d);
    assert forall|i: int| 0 <= i < t.len() implies h[i] == t[i] by {
        let j = i / 2;
        assert(0 <= j < d.len());
        let hi = t[2 * j];
        let lo = t[2 * j + 1];
        assert(is_hex_char(hi));
        assert(is_hex_char(lo));
        lemma_hex_value_round_trip(hi);
        lemma_hex_value_round_trip(lo);
        let b = d[j];
        assert(b == hex_value(hi) * 16 + hex_value(lo));
        assert(b / 16 == hex_value(hi));
        assert(b % 16 == hex_value(lo));
        if i % 2 == 0 {
            assert(i == 2 * j);
        } else {
            assert(i == 2 * j + 1);
        }
    }
    assert(h =~= t);
}

/// Reading back the big-endian bytes of `x` gives `x`.
pub proof fn lemma_be_round_trip(x: u64)
    ensures
        be_bytes(x).len() == 8,
        be_value(be_bytes(x)) == x,
{
    assert(((((x >> 56) & 0xff) as u8) as u64) == (x >> 56) & 0xff) by (bit_vector);
    assert(((((x >> 48) & 0xff) as u8) as u64) == (x >> 48) & 0xff) by (bit_vector);
    assert(((((x >> 40) & 0xff) as u8) as u64) == (x >> 40) & 0xff) by (bit_vector);
    assert(((((x >> 32) & 0xff) as u8) as u64) == (x >> 32) & 0xff) by (bit_vector);
    assert(((((x >> 24) & 0xff) as u8) as u64) == (x >> 24) & 0xff) by (bit_vector);
    assert(((((x >> 16) & 0xff) as u8) as u64) == (x >> 16) & 0xff) by (bit_vector);
    assert(((((x >> 8) & 0xff) as u8) as u64) == (x >> 8) & 0xff) by (bit_vector);
    assert((((x & 0xff) as u8) as u64) == x & 0xff) by (bit_vector);
    assert(x == ((x >> 56) & 0xff) << 56 | ((x >> 48) & 0xff) << 48 | ((x >> 40) & 0xff) << 40 | ((
    x >> 32) & 0xff) << 32 | ((x >> 24) & 0xff) << 24 | ((x >> 16) & 0xff) << 16 | ((x >> 8) & 0xff)
        << 8 | (x & 0xff)) by (bit_vector);
}

fn hex_digit_exec(v: u8) -> (r: u8)
    requires
        v < 16,
    ensures
        r == hex_digit(v),
{
    if v < 10 {
        48 + v
    } else {
        87 + v
    }
}

/// Appends the lowercase hex text of `s` to `out`.
pub fn push_hex(out: &mut Vec<u8>, s: &[u8])
    ensures
        final(out)@ == old(out)@ + hex_of(s@),
{
    let ghost start = out@;
    let mut i: usize = 0;
    while i < s.len()
        invariant
            0 <= i <= s.len(),
            out@ == start + hex_of(s@.subrange(0, i as int)),
        decreases s.len() - i,
    {
        let b = s[i];
        out.push(hex_digit_exec(b / 16));
        out.push(hex_digit_exec(b % 16));
        i = i + 1;
        assert(hex_of(s@.subrange(0, i as int)) =~= hex_of(s@.subrange(0, i - 1 as int)) + seq![
            hex_digit(b / 16),
            hex_digit(b % 16),
        ]);
    }
    assert(s@.subrange(0, s@.len() as int) =~= s@);
}

fn is_hex_char_exec(c: u8) -> (r: bool)
    ensures
        r == is_hex_char(c),
{
    (48 <= c && c <= 57) || (97 <= c && c <= 102)
}

fn hex_value_exec(c: u8) -> (r: u8)
    requires
        is_hex_char(c),
    ensures
        r == hex_value(c),
        r < 16,
{
    if c <= 57 {
        c - 48
    } else {
        c - 87
    }
}

/// Decodes the lowercase hex text `t[lo..hi]`.
pub fn decode_hex(t: &[u8], lo: usize, hi: usize) -> (r: Option<Vec<u8>>)
    requires
        lo <= hi <= t@.len(),
    ensures
        r matches Some(v) ==> hex_decode(t@.subrange(lo as int, hi as int)) == Some(v@),
        r is None ==> hex_decode(t@.subrange(lo as int, hi as int)) is None,
{
    let ghost w = t@.subrange(lo as int, hi as int);
    if (hi - lo) % 2 != 0 {
        return None;
    }
    let mut i: usize = lo;
    while i < hi
        invariant
            lo <= i <= hi <= t@.len(),
            w == t@.subrange(lo as int, hi as int),
            forall|k: int| 0 <= k < i - lo ==> is_hex_char(#[trigger] w[k]),
        decreases hi - i,
    {
        if !is_hex_char_exec(t[i]) {
            assert(w[i - lo] == t@[i as int]);
            return None;
        }
        i = i + 1;
    }
    assert(is_hex_text(w));
    let mut out: Vec<u8> = Vec::new();
    let n: usize = (hi - lo) / 2;
    let mut j: usize = 0;
    while j < n
        invariant
            lo <= hi <= t@.len(),
            n == (hi - lo) / 2,
            (hi - lo) % 2 == 0,
            w == t@.subrange(lo as int, hi as int),
            is_hex_text(w),
            j <= n,
            out@.len() == j,
            forall|k: int|
                0 <= k < j ==> out@[k] == (hex_value(w[2 * k]) * 16 + hex_value(w[2 * k + 1])) as u8,
        decreases n - j,
    {
        let a = t[lo + 2 * j];
        let b = t[lo + 2 * j + 1];
        assert(a == w[2 * j as int]);
        assert(b == w[2 * j + 1]);
        let hv = hex_value_exec(a);
        let lv = hex_value_exec(b);
        out.push(hv * 16 + lv);
        j = j + 1;
    }
    assert(out@ =~= hex_decode(w).unwrap());
    Some(out)
}

/// Appends the big-endian bytes of `x` to `out`.
pub fn push_be_u64(out: &mut Vec<u8>, x: u64)
    ensures
        final(out)@ == old(out)@ + be_bytes(x),
{
    out.push(((x >> 56) & 0xff) as u8);
    out.push(((x >> 48) & 0xff) as u8);
    out.push(((x >> 40) & 0xff) as u8);
    out.push(((x >> 32) & 0xff) as u8);
    out.push(((x >> 24) & 0xff) as u8);
    out.push(((x >> 16) & 0xff) as u8);
    out.push(((x >> 8) & 0xff) as u8);
    out.push((x & 0xff) as u8);
    assert(final(out)@ =~= old(out)@ + be_bytes(x));
}

/// Reads the big-endian integer in `s[at..at + 8]`.
pub fn read_be_u64(s: &[u8], at: usize) -> (r: u64)
    requires
        at + 8 <= s@.len(),
    ensures
        r == be_value(s@.subrange(at as int, at + 8)),
{
    (s[at] as u64) << 56 | (s[at + 1] as u64) << 48 | (s[at + 2] as u64) << 40 | (s[at + 3] as u64)
        << 32 | (s[at + 4] as u64) << 24 | (s[at + 5] as u64) << 16 | (s[at + 6] as u64) << 8 | (
    s[at + 7] as u64)
}

} // verus!
