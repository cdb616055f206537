//! Big- and little-endian byte readers and writers, substring search, and
//! small ASCII text helpers shared by the container codecs.

use vstd::prelude::*;

verus! {

use vstd::string::StringSliceAdditionalSpecFns;

/// The unsigned value of two bytes read in big-endian order.
pub open spec fn be16(b0: u8, b1: u8) -> u16 {
    (b0 as int * 256 + b1 as int) as u16
}

/// The unsigned value of two bytes read in little-endian order.
pub open spec fn le16(b0: u8, b1: u8) -> u16 {
    be16(b1, b0)
}

/// The unsigned value of four bytes read in big-endian order.
pub open spec fn be32(b0: u8, b1: u8, b2: u8, b3: u8) -> u32 {
    (b0 as int * 0x1000000 + b1 as int * 0x10000 + b2 as int * 0x100 + b3 as int) as u32
}

/// The unsigned value of four bytes read in little-endian order.
pub open spec fn le32(b0: u8, b1: u8, b2: u8, b3: u8) -> u32 {
    be32(b3, b2, b1, b0)
}

/// The big-endian byte sequence of a 16-bit value.
pub open spec fn u16_be_bytes(v: u16) -> Seq<u8> {
    seq![(v as int / 256) as u8, (v as int % 256) as u8]
}

/// The big-endian byte sequence of a 32-bit value.
pub open spec fn u32_be_bytes(v: u32) -> Seq<u8> {
    seq![
        (v as int / 0x1000000) as u8,
        ((v as int / 0x10000) % 256) as u8,
        ((v as int / 0x100) % 256) as u8,
        (v as int % 256) as u8,
    ]
}

pub fn read_u16_be(b: &[u8], off: usize) -> (r: u16)
    requires
        off + 2 <= b@.len(),
    ensures
        r == be16(b@[off as int], b@[off as int + 1]),
{
    let hi = b[off] as u16;
    let lo = b[off + 1] as u16;
    hi * 256 + lo
}

pub fn read_u16_le(b: &[u8], off: usize) -> (r: u16)
    requires
        off + 2 <= b@.len(),
    ensures
        r == le16(b@[off as int], b@[off as int + 1]),
{
    let lo = b[off] as u16;
    let hi = b[off + 1] as u16;
    hi * 256 + lo
}

pub fn read_u32_be(b: &[u8], off: usize) -> (r: u32)
    requires
        off + 4 <= b@.len(),
    ensures
        r == be32(b@[off as int], b@[off as int + 1], b@[off as int + 2], b@[off as int + 3]),
{
    let b0 = b[off] as u32;
    let b1 = b[off + 1] as u32;
    let b2 = b[off + 2] as u32;
    let b3 = b[off + 3] as u32;
    b0 * 0x1000000 + b1 * 0x10000 + b2 * 0x100 + b3
}

pub fn read_u32_le(b: &[u8], off: usize) -> (r: u32)
    requires
        off + 4 <= b@.len(),
    ensures
        r == le32(b@[off as int], b@[off as int + 1], b@[off as int + 2], b@[off as int + 3]),
{
    let b0 = b[off] as u32;
    let b1 = b[off + 1] as u32;
    let b2 = b[off + 2] as u32;
    let b3 = b[off + 3] as u32;
    b3 * 0x1000000 + b2 * 0x10000 + b1 * 0x100 + b0
}

/// Append the two big-endian bytes of `v` to `out`.
pub fn push_u16_be(out: &mut Vec<u8>, v: u16)
    ensures
        final(out)@ == old(out)@ + u16_be_bytes(v),
{
    out.push((v / 256) as u8);
    out.push((v % 256) as u8);
    proof {
        assert(out@ =~= old(out)@ + u16_be_bytes(v));
    }
}

/// Append the four big-endian bytes of `v` to `out`.
pub fn push_u32_be(out: &mut Vec<u8>, v: u32)
    ensures
        final(out)@ == old(out)@ + u32_be_bytes(v),
{
    out.push((v / 0x1000000) as u8);
    out.push(((v / 0x10000) % 256) as u8);
    out.push(((v / 0x100) % 256) as u8);
    out.push((v % 256) as u8);
    proof {
        assert(out@ =~= old(out)@ + u32_be_bytes(v));
    }
}

/// Reading back the big-endian bytes of a 16-bit value gives the value.
pub proof fn lemma_be16_roundtrip(v: u16)
    ensures
        be16(u16_be_bytes(v)[0], u16_be_bytes(v)[1]) == v,
{
    assert(v as int / 256 * 256 + v as int % 256 == v as int) by (nonlinear_arith);
}

/// Reading back the big-endian bytes of a 32-bit value gives the value.
pub proof fn lemma_be32_roundtrip(v: u32)
    ensures
        be32(u32_be_bytes(v)[0], u32_be_bytes(v)[1], u32_be_bytes(v)[2], u32_be_bytes(v)[3]) == v,
{
    let n = v as int;
    assert(n / 0x1000000 * 0x1000000 + (n / 0x10000) % 256 * 0x10000 + (n / 0x100) % 256 * 0x100
        + n % 256 == n) by (nonlinear_arith)
        requires
            0 <= n < 0x100000000,
    ;
}

/// `n` occurs in `h` starting at position `i`.
pub open spec fn matches_at(h: Seq<u8>, n: Seq<u8>, i: int) -> bool {
    0 <= i && i + n.len() <= h.len() && h.subrange(i, i + n.len() as int) == n
}

/// Compare `n` against the bytes of `h` starting at `i`.
pub fn slices_eq_at(h: &[u8], n: &[u8], i: usize) -> (r: bool)
    requires
        i + n@.len() <= h@.len(),
    ensures
        r == matches_at(h@, n@, i as int),
{
    let h_len = h.len();
    let mut j: usize = 0;
    while j < n.len()
        invariant
            i + n@.len() <= h@.len(),
            h_len == h@.len(),
            0 <= j <= n@.len(),
            forall|k: int| 0 <= k < j ==> h@[i + k] == n@[k],
        decreases n@.len() - j,
    {
        if h[i + j] != n[j] {
            proof {
                assert(h@.subrange(i as int, i + n@.len() as int)[j as int] != n@[j as int]);
            }
            return false;
        }
        j += 1;
    }
    proof {
        assert(h@.subrange(i as int, i + n@.len() as int) =~= n@);
    }
    true
}

/// First occurrence of `n` inside `h`, if any.
pub fn find_subslice(h: &[u8], n: &[u8]) -> (r: Option<usize>)
    ensures
        match r {
            Some(i) => matches_at(h@, n@, i as int) && forall|j: int|
                0 <= j < i ==> !matches_at(h@, n@, j),
            None => forall|j: int| !matches_at(h@, n@, j),
        },
{
    if n.len() > h.len() {
        return None;
    }
    let last = h.len() - n.len();
    let mut i: usize = 0;
    loop
        invariant
            n@.len() <= h@.len(),
            last == h@.len() - n@.len(),
            0 <= i <= last,
            forall|j: int| 0 <= j < i ==> !matches_at(h@, n@, j),
        decreases last - i,
    {
        if slices_eq_at(h, n, i) {
            return Some(i);
        }
        if i == last {
            proof {
                assert(forall|j: int| j > last ==> !matches_at(h@, n@, j));
            }
            return None;
        }
        i += 1;
    }
}

/// `n` occurs somewhere in `h`.
pub fn contains_subslice(h: &[u8], n: &[u8]) -> (r: bool)
    ensures
        r == exists|i: int| matches_at(h@, n@, i),
{
    match find_subslice(h, n) {
        Some(i) => {
            proof {
                assert(matches_at(h@, n@, i as int));
            }
            true
        },
        None => false,
    }
}

/// `h` begins with `n`.
pub fn starts_with(h: &[u8], n: &[u8]) -> (r: bool)
    ensures
        r == (n@.len() <= h@.len() && h@.subrange(0, n@.len() as int) == n@),
{
    if n.len() > h.len() {
        return false;
    }
    slices_eq_at(h, n, 0)
}

/// Whole-slice equality.
pub fn bytes_eq(a: &[u8], b: &[u8]) -> (r: bool)
    ensures
        r == (a@ == b@),
{
    if a.len() != b.len() {
        return false;
    }
    let r = slices_eq_at(a, b, 0);
    proof {
        assert(a@.subrange(0, b@.len() as int) =~= a@);
    }
    r
}

/// Append the UTF-8 bytes of `s` to `out`.
pub fn push_str_bytes(out: &mut Vec<u8>, s: &str)
    ensures
        final(out)@ == old(out)@ + s.spec_bytes(),
{
    let b = s.as_bytes();
    out.extend_from_slice(b);
}

/// An ASCII upper-case letter mapped to lower case; any other byte unchanged.
pub open spec fn lower_byte(b: u8) -> u8 {
    if 65 <= b <= 90 {
        (b + 32) as u8
    } else {
        b
    }
}

/// The byte sequence with every ASCII letter lower-cased.
pub open spec fn lowered_of(b: Seq<u8>) -> Seq<u8> {
    Seq::new(b.len(), |i: int| lower_byte(b[i]))
}

/// Lower-case every ASCII letter of `b`.
pub fn to_ascii_lower(b: &[u8]) -> (r: Vec<u8>)
    ensures
        r@ == lowered_of(b@),
{
    let mut out: Vec<u8> = Vec::new();
    let mut i: usize = 0;
    while i < b.len()
        invariant
            0 <= i <= b@.len(),
            out@ == Seq::new(i as nat, |k: int| lower_byte(b@[k])),
        decreases b@.len() - i,
    {
        let c = b[i];
        if 65 <= c && c <= 90 {
            out.push(c + 32);
        } else {
            out.push(c);
        }
        proof {
            assert(out@ =~= Seq::new((i + 1) as nat, |k: int| lower_byte(b@[k])));
        }
        i += 1;
    }
    out
}

/// The decimal digits of a non-negative number, most significant first.
pub open spec fn dec_rep(n: int) -> Seq<u8>
    recommends
        n >= 0,
    decreases n,
{
    if n < 10 {
        seq![(48 + if n >= 0 { n } else { 0 }) as u8]
    } else {
        dec_rep(n / 10).push((48 + n % 10) as u8)
    }
}

/// Append the decimal digits of `n` to `out`.
pub fn push_decimal(out: &mut Vec<u8>, n: u64)
    ensures
        final(out)@ == old(out)@ + dec_rep(n as int),
    decreases n,
{
    if n < 10 {
        out.push(48 + n as u8);
        proof {
            assert(out@ =~= old(out)@ + dec_rep(n as int));
        }
    } else {
        push_decimal(out, n / 10);
        out.push(48 + (n % 10) as u8);
        proof {
            assert(out@ =~= old(out)@ + dec_rep(n as int));
        }
    }
}

/// A byte counted as white space when trimming extracted metadata text.
pub open spec fn is_space(b: u8) -> bool {
    b == 32 || (9 <= b <= 13)
}

/// First index at or after `i` whose byte is not white space (or the length).
pub open spec fn skip_spaces(s: Seq<u8>, i: int) -> int
    decreases s.len() - i,
{
    if 0 <= i < s.len() && is_space(s[i]) {
        skip_spaces(s, i + 1)
    } else {
        i
    }
}

/// Last position at or before `j` (but after `lo`) that ends on a byte that is
/// not white space.
pub open spec fn skip_spaces_back(s: Seq<u8>, j: int, lo: int) -> int
    recommends
        0 <= lo,
    decreases j - lo,
{
    if lo < j <= s.len() && is_space(s[j - 1]) {
        skip_spaces_back(s, j - 1, lo)
    } else {
        j
    }
}

/// `s` with leading and trailing white space removed.
pub open spec fn trim_spec(s: Seq<u8>) -> Seq<u8> {
    s.subrange(skip_spaces(s, 0), skip_spaces_back(s, s.len() as int, skip_spaces(s, 0)))
}

proof fn lemma_skip_spaces_bounds(s: Seq<u8>, i: int)
    requires
        0 <= i <= s.len(),
    ensures
        i <= skip_spaces(s, i) <= s.len(),
    decreases s.len() - i,
{
    if 0 <= i < s.len() && is_space(s[i]) {
        lemma_skip_spaces_bounds(s, i + 1);
    }
}

proof fn lemma_skip_spaces_back_bounds(s: Seq<u8>, j: int, lo: int)
    requires
        0 <= lo <= j <= s.len(),
    ensures
        lo <= skip_spaces_back(s, j, lo) <= j,
    decreases j,
{
    if lo < j <= s.len() && is_space(s[j - 1]) {
        lemma_skip_spaces_back_bounds(s, j - 1, lo);
    }
}

/// Drop leading and trailing white space.
pub fn trim_spaces(b: &[u8]) -> (r: Vec<u8>)
    ensures
        r@ == trim_spec(b@),
{
    let ghost s = b@;
    let mut lo: usize = 0;
    loop
        invariant
            0 <= lo <= s.len(),
            s == b@,
            skip_spaces(s, 0) == skip_spaces(s, lo as int),
        ensures
            0 <= lo <= s.len(),
            skip_spaces(s, 0) == lo,
        decreases s.len() - lo,
    {
        if lo >= b.len() {
            break;
        }
        let c = b[lo];
        if !(c == 32 || (9 <= c && c <= 13)) {
            break;
        }
        lo += 1;
    }
    let mut hi: usize = b.len();
    loop
        invariant
            lo <= hi <= s.len(),
            s == b@,
            skip_spaces_back(s, s.len() as int, lo as int) == skip_spaces_back(
                s,
                hi as int,
                lo as int,
            ),
        ensures
            lo <= hi <= s.len(),
            skip_spaces_back(s, s.len() as int, lo as int) == hi,
        decreases hi,
    {
        if hi <= lo {
            break;
        }
        let c = b[hi - 1];
        if !(c == 32 || (9 <= c && c <= 13)) {
            break;
        }
        hi -= 1;
    }
    let mut out: Vec<u8> = Vec::new();
    let mut i: usize = lo;
    while i < hi
        invariant
            lo <= i <= hi <= s.len(),
            s == b@,
            out@ == s.subrange(lo as int, i as int),
        decreases hi - i,
    {
        out.push(b[i]);
        proof {
            assert(out@ =~= s.subrange(lo as int, i as int + 1));
        }
        i += 1;
    }
    proof {
        assert(out@ == s.subrange(lo as int, hi as int));
    }
    out
}


/// Check that `b` is a valid UTF-8 encoding, scalar by scalar.
pub fn is_valid_utf8(b: &[u8]) -> (r: bool)
    ensures
        r == vstd::utf8::valid_utf8(b@),
{
    let blen = b.len();
    let mut i: usize = 0;
    proof {
        assert(b@.skip(0) =~= b@);
    }
    loop
        invariant
            0 <= i <= blen,
            blen == b@.len(),
            vstd::utf8::valid_utf8(b@) == vstd::utf8::valid_utf8(b@.skip(i as int)),
        decreases blen - i,
    {
        let ghost s = b@.skip(i as int);
        if i >= blen {
            proof {
                assert(s.len() == 0);
            }
            return true;
        }
        let b0 = b[i];
        proof {
            assert(s.len() == blen - i);
            assert(s[0] == b@[i as int]);
        }
        // The leading byte fixes the width of the first scalar.
        let w: usize = if b0 <= 0x7f {
            1
        } else if 0xc0 <= b0 && b0 <= 0xdf {
            2
        } else if 0xe0 <= b0 && b0 <= 0xef {
            3
        } else if 0xf0 <= b0 && b0 <= 0xf7 {
            4
        } else {
            proof {
                assert(!vstd::utf8::valid_leading_and_continuation_bytes_first_codepoint(s));
                assert(!vstd::utf8::valid_utf8(s));
            }
            return false;
        };
        if blen - i < w {
            proof {
                assert(!vstd::utf8::valid_leading_and_continuation_bytes_first_codepoint(s));
                assert(!vstd::utf8::valid_utf8(s));
            }
            return false;
        }
        // Continuation bytes must follow the 10xxxxxx pattern.
        let mut conts_ok = true;
        if w >= 2 && !(0x80 <= b[i + 1] && b[i + 1] <= 0xbf) {
            conts_ok = false;
        }
        if w >= 3 && !(0x80 <= b[i + 2] && b[i + 2] <= 0xbf) {
            conts_ok = false;
        }
        if w == 4 && !(0x80 <= b[i + 3] && b[i + 3] <= 0xbf) {
            conts_ok = false;
        }
        proof {
            if 1 <= w <= 4 && w as int <= s.len() {
                assert(w >= 2 ==> s[1] == b@[i as int + 1]);
                assert(w >= 3 ==> s[2] == b@[i as int + 2]);
                assert(w == 4 ==> s[3] == b@[i as int + 3]);
            }
        }
        if !conts_ok {
            proof {
                assert(!vstd::utf8::valid_leading_and_continuation_bytes_first_codepoint(s));
                assert(!vstd::utf8::valid_utf8(s));
            }
            return false;
        }
        // The decoded codepoint, composed exactly as the decoder does.
        let cp: u32 = if w == 1 {
            ((b0 & 0x7f) as u32)
        } else if w == 2 {
            (((b0 & 0x1f) as u32) << 6u32) | ((b[i + 1] & 0x3f) as u32)
        } else if w == 3 {
            (((b0 & 0x0f) as u32) << 12u32) | (((b[i + 1] & 0x3f) as u32) << 6u32) | ((b[i + 2]
                & 0x3f) as u32)
        } else {
            (((b0 & 0x07) as u32) << 18u32) | (((b[i + 1] & 0x3f) as u32) << 12u32) | (((b[i + 2]
                & 0x3f) as u32) << 6u32) | ((b[i + 3] & 0x3f) as u32)
        };
        proof {
            assert(vstd::utf8::valid_leading_and_continuation_bytes_first_codepoint(s));
            assert(vstd::utf8::length_of_first_codepoint(s) == w);
            assert(vstd::utf8::decode_first_codepoint(s) == cp);
        }
        // Reject overlong encodings and the surrogate range.
        if w == 2 && cp < 0x80 {
            proof {
                assert(!vstd::utf8::valid_first_scalar(s));
                assert(!vstd::utf8::valid_utf8(s));
            }
            return false;
        }
        if w == 3 && cp < 0x800 {
            proof {
                assert(!vstd::utf8::valid_first_scalar(s));
                assert(!vstd::utf8::valid_utf8(s));
            }
            return false;
        }
        if w == 4 && !(0x10000 <= cp && cp <= 0x10ffff) {
            proof {
                assert(!vstd::utf8::valid_first_scalar(s));
                assert(!vstd::utf8::valid_utf8(s));
            }
            return false;
        }
        if 0xd800 <= cp && cp <= 0xdfff {
            proof {
                assert(!vstd::utf8::valid_first_scalar(s));
                assert(!vstd::utf8::valid_utf8(s));
            }
            return false;
        }
        proof {
            assert(vstd::utf8::valid_first_scalar(s));
            assert(vstd::utf8::pop_first_scalar(s) =~= b@.skip(i as int + w as int));
            assert(vstd::utf8::valid_utf8(s) == vstd::utf8::valid_utf8(b@.skip(i as int + w as int)));
        }
        i += w;
    }
}

} // verus!
