//! Byte-level helpers shared by the codec, the relay handshake and
//! the negotiator: big-endian 32-bit fields, ASCII decimal numbers,
//! and substring search over byte strings.

use vstd::prelude::*;

verus! {

/// Value of a 4-byte big-endian field.
pub open spec fn be32(s: Seq<u8>) -> int
    recommends
        s.len() == 4,
{
    s[0] * 0x1000000 + s[1] * 0x10000 + s[2] * 0x100 + s[3]
}

/// The 4 big-endian bytes of a 32-bit value.
pub open spec fn be32_bytes(v: u32) -> Seq<u8> {
    seq![
        (v / 0x1000000) as u8,
        ((v / 0x10000) % 0x100) as u8,
        ((v / 0x100) % 0x100) as u8,
        (v % 0x100) as u8,
    ]
}

/// Encoding then decoding a 32-bit field gives the value back.
pub proof fn lemma_be32_round_trip(v: u32)
    ensures
        be32(be32_bytes(v)) == v,
{
    assert(be32(be32_bytes(v)) == v) by (nonlinear_arith);
}

/// Reads the big-endian field at `off`.
pub fn read_be32(s: &[u8], off: usize) -> (r: u32)
    requires
        off + 4 <= s@.len(),
    ensures
        r == be32(s@.subrange(off as int, off + 4)),
{
    let b0 = s[off] as u32;
    let b1 = s[off + 1] as u32;
    let b2 = s[off + 2] as u32;
    let b3 = s[off + 3] as u32;
    b0 * 0x1000000 + b1 * 0x10000 + b2 * 0x100 + b3
}

/// Appends the big-endian bytes of `v`.
pub fn put_be32(out: &mut Vec<u8>, v: u32)
    ensures
        final(out)@ == old(out)@ + be32_bytes(v),
{
    out.push((v / 0x1000000) as u8);
    out.push(((v / 0x10000) % 0x100) as u8);
    out.push(((v / 0x100) % 0x100) as u8);
    out.push((v % 0x100) as u8);
    assert(out@ =~= old(out)@ + be32_bytes(v));
}

/// An ASCII decimal digit.
pub open spec fn is_dec_digit(b: u8) -> bool {
    48 <= b <= 57
}

/// Every byte is an ASCII decimal digit.
pub open spec fn all_dec_digits(s: Seq<u8>) -> bool {
    forall|i: int| 0 <= i < s.len() ==> is_dec_digit(#[trigger] s[i])
}

/// Numeric value of a digit string.
pub open spec fn dec_value(s: Seq<u8>) -> nat
    decreases s.len(),
{
    if s.len() == 0 {
        0
    } else {
        dec_value(s.drop_last()) * 10 + (if s.last() >= 48 { (s.last() - 48) as nat } else { 0 })
    }
}

/// A longer digit prefix never has a smaller value.
pub proof fn lemma_dec_value_prefix(s: Seq<u8>, i: int, j: int)
    requires
        all_dec_digits(s),
        0 <= i <= j <= s.len(),
    ensures
        dec_value(s.subrange(0, i)) <= dec_value(s.subrange(0, j)),
    decreases j - i,
{
    if i < j {
        lemma_dec_value_prefix(s, i, j - 1);
        assert(s.subrange(0, j).drop_last() =~= s.subrange(0, j - 1));
    }
}

/// The digits of a decimal literal: everything after an optional
/// leading `+` sign.
pub open spec fn dec_body(s: Seq<u8>) -> Seq<u8> {
    if s.len() > 0 && s[0] == 43 {
        s.drop_first()
    } else {
        s
    }
}

/// What `u32` parsing accepts: an optional leading `+`, then at
/// least one digit, with a value that fits.
pub open spec fn parse_u32_spec(s: Seq<u8>) -> Option<u32> {
    let body = dec_body(s);
    if body.len() > 0 && all_dec_digits(body) && dec_value(body) <= u32::MAX {
        Some(dec_value(body) as u32)
    } else {
        None
    }
}

/// Parses an ASCII decimal `u32`, accepting an optional leading `+`
/// as the standard library's parser does.
pub fn parse_u32_ascii(s: &[u8]) -> (r: Option<u32>)
    ensures
        r == parse_u32_spec(s@),
{
    let ghost body = dec_body(s@);
    let start: usize = if s.len() > 0 && s[0] == 43 {
        1
    } else {
        0
    };
    assert(body =~= s@.subrange(start as int, s@.len() as int));
    let n = s.len();
    if n == start {
        return None;
    }
    let mut acc: u64 = 0;
    let mut i: usize = start;
    while i < n
        invariant
            n == s@.len(),
            start <= i <= n,
            start <= 1,
            body == dec_body(s@),
            body =~= s@.subrange(start as int, s@.len() as int),
            all_dec_digits(body.subrange(0, i - start)),
            acc == dec_value(body.subrange(0, i - start)),
            acc <= u32::MAX,
        decreases n - i,
    {
        let b = s[i];
        if b < 48 || b > 57 {
            assert(body[i - start] == b);
            assert(!all_dec_digits(body));
            return None;
        }
        let d = (b - 48) as u64;
        let next: u64 = acc * 10 + d;
        proof {
            let pre = body.subrange(0, i + 1 - start);
            assert(pre.drop_last() =~= body.subrange(0, i - start));
            assert(next == dec_value(pre));
        }
        if next > u32::MAX as u64 {
            proof {
                if all_dec_digits(body) {
                    lemma_dec_value_prefix(body, i + 1 - start, body.len() as int);
                    assert(body.subrange(0, body.len() as int) =~= body);
                }
            }
            return None;
        }
        acc = next;
        i = i + 1;
    }
    assert(body.subrange(0, i - start) =~= body);
    Some(acc as u32)
}

/// Decimal digits of an unsigned value, most significant first.
pub open spec fn dec_digits(v: nat) -> Seq<u8>
    decreases v,
{
    if v < 10 {
        seq![(48 + v) as u8]
    } else {
        dec_digits(v / 10).push((48 + v % 10) as u8)
    }
}

/// Decimal representation of a signed value: a `-` sign before the
/// digits of the magnitude when negative.
pub open spec fn dec_repr(v: int) -> Seq<u8> {
    if v >= 0 {
        dec_digits(v as nat)
    } else {
        seq![45u8] + dec_digits((-v) as nat)
    }
}

/// Writes `v` in ASCII decimal.
pub fn format_u64(v: u64) -> (r: Vec<u8>)
    ensures
        r@ == dec_digits(v as nat),
    decreases v,
{
    if v < 10 {
        let mut out: Vec<u8> = Vec::new();
        out.push(48 + v as u8);
        assert(out@ =~= dec_digits(v as nat));
        out
    } else {
        let mut out = format_u64(v / 10);
        out.push(48 + (v % 10) as u8);
        assert(out@ =~= dec_digits(v as nat));
        out
    }
}

/// Writes `v` in ASCII decimal, with a `-` sign when negative.
pub fn format_i64(v: i64) -> (r: Vec<u8>)
    ensures
        r@ == dec_repr(v as int),
{
    if v >= 0 {
        format_u64(v as u64)
    } else {
        let mag: u64 = ((-(v + 1)) as u64) + 1;
        assert(mag == -(v as int));
        let digits = format_u64(mag);
        let mut out: Vec<u8> = Vec::new();
        out.push(45);
        let mut j: usize = 0;
        while j < digits.len()
            invariant
                j <= digits@.len(),
                digits@ == dec_digits((-(v as int)) as nat),
                out@ =~= seq![45u8] + digits@.subrange(0, j as int),
            decreases digits@.len() - j,
        {
            let b = digits[j];
            out.push(b);
            assert(out@ =~= seq![45u8] + digits@.subrange(0, j + 1));
            j = j + 1;
        }
        assert(out@ =~= dec_repr(v as int));
        out
    }
}

/// Appends every byte of `s`.
pub fn push_all(out: &mut Vec<u8>, s: &[u8])
    ensures
        final(out)@ == old(out)@ + s@,
{
    let ghost base = out@;
    let n = s.len();
    let mut i: usize = 0;
    while i < n
        invariant
            n == s@.len(),
            i <= n,
            out@ =~= base + s@.subrange(0, i as int),
        decreases n - i,
    {
        out.push(s[i]);
        assert(out@ =~= base + s@.subrange(0, i + 1));
        i = i + 1;
    }
    assert(out@ =~= base + s@);
}

/// `needle` occurs as a contiguous run starting at `i` of `hay`.
pub open spec fn matches_at(hay: Seq<u8>, needle: Seq<u8>, i: int) -> bool {
    0 <= i && i + needle.len() <= hay.len() && hay.subrange(i, i + needle.len()) == needle
}

/// `needle` occurs somewhere in `hay`.
pub open spec fn contains_seq(hay: Seq<u8>, needle: Seq<u8>) -> bool {
    exists|i: int| matches_at(hay, needle, i)
}

/// The bytes of `needle` stand at position `i` of `hay`.
fn eq_at(hay: &[u8], needle: &[u8], i: usize) -> (r: bool)
    requires
        i + needle@.len() <= hay@.len(),
    ensures
        r == matches_at(hay@, needle@, i as int),
{
    let nn = needle.len();
    let hn = hay.len();
    let mut j: usize = 0;
    while j < nn
        invariant
            nn == needle@.len(),
            hn == hay@.len(),
            i + nn <= hn,
            j <= nn,
            forall|k: int| 0 <= k < j ==> hay@[i + k] == needle@[k],
        decreases nn - j,
    {
        if hay[i + j] != needle[j] {
            proof {
                if matches_at(hay@, needle@, i as int) {
                    assert(hay@.subrange(i as int, i + needle@.len())[j as int] == hay@[i + j]);
                }
            }
            return false;
        }
        j = j + 1;
    }
    assert(hay@.subrange(i as int, i + needle@.len()) =~= needle@);
    true
}

/// Position of the first occurrence of `needle` in `hay`, if any.
pub fn find_bytes(hay: &[u8], needle: &[u8]) -> (r: Option<usize>)
    ensures
        match r {
            Some(i) => matches_at(hay@, needle@, i as int) && (forall|k: int|
                0 <= k < i ==> !matches_at(hay@, needle@, k)),
            None => !contains_seq(hay@, needle@),
        },
{
    let hn = hay.len();
    let nn = needle.len();
    if nn > hn {
        assert(forall|i: int| !matches_at(hay@, needle@, i));
        return None;
    }
    if nn == 0 {
        assert(hay@.subrange(0, 0) =~= needle@);
        assert(matches_at(hay@, needle@, 0));
        return Some(0);
    }
    let mut i: usize = 0;
    while i <= hn - nn
        invariant
            hn == hay@.len(),
            nn == needle@.len(),
            0 < nn <= hn,
            i <= hn - nn + 1,
            forall|k: int| 0 <= k < i ==> !matches_at(hay@, needle@, k),
        decreases hn - i,
    {
        if eq_at(hay, needle, i) {
            return Some(i);
        }
        i = i + 1;
    }
    proof {
        assert(forall|k: int| matches_at(hay@, needle@, k) ==> 0 <= k < i);
    }
    None
}

/// Substring search.
pub fn contains_bytes(hay: &[u8], needle: &[u8]) -> (r: bool)
    ensures
        r == contains_seq(hay@, needle@),
{
    match find_bytes(hay, needle) {
        Some(_) => true,
        None => false,
    }
}

/// Equality of two byte strings.
pub fn bytes_eq(a: &[u8], b: &[u8]) -> (r: bool)
    ensures
        r == (a@ == b@),
{
    if a.len() != b.len() {
        return false;
    }
    let r = eq_at(a, b, 0);
    proof {
        assert(a@.subrange(0, a@.len() as int) =~= a@);
    }
    r
}

/// `s` ends with `suffix`.
pub open spec fn ends_with_seq(s: Seq<u8>, suffix: Seq<u8>) -> bool {
    suffix.len() <= s.len() && s.subrange(s.len() - suffix.len(), s.len() as int) == suffix
}

/// Suffix test.
pub fn ends_with_bytes(s: &[u8], suffix: &[u8]) -> (r: bool)
    ensures
        r == ends_with_seq(s@, suffix@),
{
    let sn = s.len();
    let mn = suffix.len();
    if mn > sn {
        return false;
    }
    let off = sn - mn;
    let mut j: usize = 0;
    while j < mn
        invariant
            sn == s@.len(),
            mn == suffix@.len(),
            j <= mn,
            mn <= sn,
            off == sn - mn,
            forall|k: int| 0 <= k < j ==> s@[off + k] == suffix@[k],
        decreases mn - j,
    {
        if s[off + j] != suffix[j] {
            assert(s@.subrange(s@.len() - suffix@.len(), s@.len() as int)[j as int] != suffix@[j as int]);
            return false;
        }
        j = j + 1;
    }
    assert(s@.subrange(s@.len() - suffix@.len(), s@.len() as int) =~= suffix@);
    true
}

/// `s` starts with `prefix`.
pub open spec fn starts_with_seq(s: Seq<u8>, prefix: Seq<u8>) -> bool {
    prefix.len() <= s.len() && s.subrange(0, prefix.len() as int) == prefix
}

/// Prefix test.
pub fn starts_with_bytes(s: &[u8], prefix: &[u8]) -> (r: bool)
    ensures
        r == starts_with_seq(s@, prefix@),
{
    let pn = prefix.len();
    if pn > s.len() {
        return false;
    }
    let mut j: usize = 0;
    while j < pn
        invariant
            pn == prefix@.len(),
            j <= pn,
            pn <= s@.len(),
            forall|k: int| 0 <= k < j ==> s@[k] == prefix@[k],
        decreases pn - j,
    {
        if s[j] != prefix[j] {
            assert(s@.subrange(0, prefix@.len() as int)[j as int] != prefix@[j as int]);
            return false;
        }
        j = j + 1;
    }
    assert(s@.subrange(0, prefix@.len() as int) =~= prefix@);
    true
}

} // verus!
