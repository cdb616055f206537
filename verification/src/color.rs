//! Best-effort ICC-based color gamut detection for a JPEG.
//!
//! The ICC profile is reassembled from the APP2 `ICC_PROFILE` chunks, the
//! `rXYZ`/`gXYZ`/`bXYZ` tags are decoded as `s15Fixed16Number` fixed-point
//! values, the XYZ triples are normalized to chromaticity coordinates, and
//! the resulting primaries triangle is compared against the BT.709,
//! Display P3 and BT.2100 reference triangles with a tolerance of 0.005 per
//! coordinate. The arithmetic is exact: a chromaticity `X / (X + Y + Z)` is
//! kept as a fraction, and the tolerance check cross-multiplies, so no
//! rounding is involved. When no triangle matches, the profile-description
//! text is scanned for well-known substrings as a fallback hint.

use vstd::prelude::*;

use crate::binutil::{be32, matches_at, read_u32_be, to_ascii_lower, lower_byte};
use crate::jpeg::{JpegDocument, JpegSegment, MARKER_APP2};
use crate::types::ColorGamut;

verus! {

use vstd::string::StringSliceAdditionalSpecFns;

/// Match tolerance per chromaticity coordinate, as a fraction of one: five
/// parts in a thousand, kept in the same 1/10000 scale as the reference
/// coordinates.
pub const MATCH_TOLERANCE_10K: i64 = 50;

/// The `ICC_PROFILE` chunk signature, NUL included.
pub open spec fn icc_sig() -> Seq<u8> {
    seq![0x49u8, 0x43u8, 0x43u8, 0x5Fu8, 0x50u8, 0x52u8, 0x4Fu8, 0x46u8, 0x49u8, 0x4Cu8, 0x45u8,
        0x00u8]
}

/// An APP2 segment carrying an `ICC_PROFILE` chunk: the 12-byte signature,
/// a sequence number, a chunk count, then profile bytes.
pub open spec fn is_icc_seg(s: JpegSegment) -> bool {
    s.marker == MARKER_APP2 && s.contents@.len() >= 14 && s.contents@.subrange(0, 12) == icc_sig()
}

/// The profile bytes carried by the document's ICC chunks, in segment order.
pub open spec fn icc_bytes_of(ss: Seq<JpegSegment>) -> Seq<u8>
    decreases ss.len(),
{
    if ss.len() == 0 {
        Seq::empty()
    } else {
        (if is_icc_seg(ss[0]) {
            ss[0].contents@.skip(14)
        } else {
            Seq::empty()
        }) + icc_bytes_of(ss.drop_first())
    }
}

/// Whether any segment carries an ICC chunk.
pub open spec fn has_icc_seg(ss: Seq<JpegSegment>) -> bool
    decreases ss.len(),
{
    if ss.len() == 0 {
        false
    } else {
        is_icc_seg(ss[0]) || has_icc_seg(ss.drop_first())
    }
}

/// The embedded ICC profile, when any chunk is present.
pub open spec fn icc_profile_spec(ss: Seq<JpegSegment>) -> Option<Seq<u8>> {
    if has_icc_seg(ss) {
        Some(icc_bytes_of(ss))
    } else {
        None
    }
}

proof fn lemma_icc_push(ss: Seq<JpegSegment>, s: JpegSegment)
    ensures
        icc_bytes_of(ss.push(s)) == icc_bytes_of(ss) + (if is_icc_seg(s) {
            s.contents@.skip(14)
        } else {
            Seq::<u8>::empty()
        }),
        has_icc_seg(ss.push(s)) == (has_icc_seg(ss) || is_icc_seg(s)),
    decreases ss.len(),
{
    if ss.len() == 0 {
        assert(ss.push(s)[0] == s);
        assert(ss.push(s).drop_first() =~= ss);
        assert(icc_bytes_of(ss.push(s)) =~= icc_bytes_of(ss) + (if is_icc_seg(s) {
            s.contents@.skip(14)
        } else {
            Seq::<u8>::empty()
        }));
    } else {
        assert(ss.push(s)[0] == ss[0]);
        assert(ss.push(s).drop_first() =~= ss.drop_first().push(s));
        lemma_icc_push(ss.drop_first(), s);
        assert(icc_bytes_of(ss.push(s)) =~= icc_bytes_of(ss) + (if is_icc_seg(s) {
            s.contents@.skip(14)
        } else {
            Seq::<u8>::empty()
        }));
    }
}

/// Reassemble the embedded ICC profile from the document's APP2 chunks.
pub fn icc_profile(doc: &JpegDocument) -> (r: Option<Vec<u8>>)
    ensures
        match r {
            Some(v) => icc_profile_spec(doc.segments@) == Some(v@),
            None => icc_profile_spec(doc.segments@) is None,
        },
{
    let ghost ss = doc.segments@;
    let mut out: Vec<u8> = Vec::new();
    let mut found = false;
    let mut i: usize = 0;
    proof {
        assert(ss.take(0) =~= Seq::<JpegSegment>::empty());
        assert(icc_bytes_of(ss.take(0)) =~= Seq::<u8>::empty());
    }
    while i < doc.segments.len()
        invariant
            0 <= i <= ss.len(),
            ss == doc.segments@,
            out@ == icc_bytes_of(ss.take(i as int)),
            found == has_icc_seg(ss.take(i as int)),
        decreases ss.len() - i,
    {
        let seg = &doc.segments[i];
        let sig: [u8; 12] = [0x49, 0x43, 0x43, 0x5F, 0x50, 0x52, 0x4F, 0x46, 0x49, 0x4C, 0x45,
            0x00];
        let is_icc = seg.marker == MARKER_APP2 && seg.contents.len() >= 14
            && crate::binutil::slices_eq_at(seg.contents.as_slice(), sig.as_slice(), 0);
        proof {
            assert(ss.take(i as int).push(ss[i as int]) =~= ss.take(i + 1));
            lemma_icc_push(ss.take(i as int), ss[i as int]);
            assert(sig@ =~= icc_sig());
            assert(is_icc == is_icc_seg(ss[i as int]));
        }
        if is_icc {
            let chunk = vstd::slice::slice_subrange(
                seg.contents.as_slice(),
                14,
                seg.contents.len(),
            );
            out.extend_from_slice(chunk);
            found = true;
        }
        i += 1;
    }
    proof {
        assert(ss.take(ss.len() as int) =~= ss);
    }
    if found {
        Some(out)
    } else {
        None
    }
}

/// The `rXYZ` tag signature.
pub open spec fn sig_rxyz() -> Seq<u8> {
    seq![0x72u8, 0x58u8, 0x59u8, 0x5Au8]
}

/// The `gXYZ` tag signature.
pub open spec fn sig_gxyz() -> Seq<u8> {
    seq![0x67u8, 0x58u8, 0x59u8, 0x5Au8]
}

/// The `bXYZ` tag signature.
pub open spec fn sig_bxyz() -> Seq<u8> {
    seq![0x62u8, 0x58u8, 0x59u8, 0x5Au8]
}

/// The `desc` tag signature.
pub open spec fn sig_desc() -> Seq<u8> {
    seq![0x64u8, 0x65u8, 0x73u8, 0x63u8]
}

/// The `XYZ ` type signature that opens an XYZ tag's data.
pub open spec fn sig_xyz_type() -> Seq<u8> {
    seq![0x58u8, 0x59u8, 0x5Au8, 0x20u8]
}

/// First index at or after `i` of a 12-byte tag-table entry whose signature
/// is `sig`, or `n`.
pub open spec fn find_tag(icc: Seq<u8>, sig: Seq<u8>, i: int, n: int) -> int
    decreases n - i when i <= n
{
    if i >= n {
        n
    } else if icc.subrange(132 + i * 12, 132 + i * 12 + 4) == sig {
        i
    } else {
        find_tag(icc, sig, i + 1, n)
    }
}

/// The data block of the first tag-table entry with signature `sig`:
/// mirrors the header layout (tag count at offset 128, 12-byte entries of
/// signature, offset and size from offset 132, all big-endian).
#[verifier::opaque]
pub open spec fn tag_data_spec(icc: Seq<u8>, sig: Seq<u8>) -> Option<Seq<u8>> {
    if icc.len() < 132 {
        None
    } else {
        let n = be32(icc[128], icc[129], icc[130], icc[131]) as int;
        if 132 + n * 12 > icc.len() {
            None
        } else {
            let i = find_tag(icc, sig, 0, n);
            if i >= n {
                None
            } else {
                let entry = 132 + i * 12;
                let offset = be32(icc[entry + 4], icc[entry + 5], icc[entry + 6], icc[entry + 7]) as int;
                let size = be32(icc[entry + 8], icc[entry + 9], icc[entry + 10], icc[entry + 11]) as int;
                if offset + size <= icc.len() {
                    Some(icc.subrange(offset, offset + size))
                } else {
                    None
                }
            }
        }
    }
}

/// Look up a tag's data block in the ICC tag table.
pub fn tag_data(icc: &[u8], sig: &[u8]) -> (r: Option<Vec<u8>>)
    requires
        sig@.len() == 4,
    ensures
        match r {
            Some(v) => tag_data_spec(icc@, sig@) == Some(v@),
            None => tag_data_spec(icc@, sig@) is None,
        },
{
    proof {
        reveal(tag_data_spec);
    }
    let ilen = icc.len();
    if ilen < 132 {
        return None;
    }
    let n = read_u32_be(icc, 128);
    if (n as u64) * 12 > (ilen - 132) as u64 {
        return None;
    }
    let mut i: usize = 0;
    loop
        invariant
            0 <= i <= n,
            ilen == icc@.len(),
            132 <= ilen,
            132 + n as int * 12 <= ilen,
            n == be32(icc@[128], icc@[129], icc@[130], icc@[131]),
            sig@.len() == 4,
            find_tag(icc@, sig@, 0, n as int) == find_tag(icc@, sig@, i as int, n as int),
        decreases n - i,
    {
        proof {
            reveal(tag_data_spec);
        }
        if i >= n as usize {
            return None;
        }
        proof {
            assert((i + 1) * 12 <= n as int * 12 && i * 12 + 12 == (i + 1) * 12 && 0 <= i * 12)
                by (nonlinear_arith)
                requires
                    0 <= i && i + 1 <= n as int,
            ;
        }
        let entry = 132 + i * 12;
        if crate::binutil::slices_eq_at(icc, sig, entry) {
            proof {
                assert(icc@.subrange(entry as int, entry as int + 4) =~= icc@.subrange(
                    132 + i as int * 12,
                    132 + i as int * 12 + 4,
                ));
            }
            let offset = read_u32_be(icc, entry + 4) as usize;
            let size = read_u32_be(icc, entry + 8) as usize;
            if offset as u64 + size as u64 <= ilen as u64 {
                let data = vstd::slice::slice_subrange(icc, offset, offset + size);
                return Some(vstd::slice::slice_to_vec(data));
            } else {
                return None;
            }
        }
        proof {
            assert(icc@.subrange(entry as int, entry as int + 4) =~= icc@.subrange(
                132 + i as int * 12,
                132 + i as int * 12 + 4,
            ));
        }
        i += 1;
    }
}

/// One XYZ triple in raw `s15Fixed16Number` units (the scale cancels in the
/// chromaticity ratios).
#[derive(Clone, Copy, Debug, PartialEq, Eq, Structural)]
pub struct Xyz {
    pub x: i32,
    pub y: i32,
    pub z: i32,
}

/// The three primaries of a profile.
#[derive(Clone, Copy, Debug, PartialEq, Eq, Structural)]
pub struct Primaries {
    pub r: Xyz,
    pub g: Xyz,
    pub b: Xyz,
}

/// The XYZ tag payload: type signature `XYZ `, then three big-endian
/// s15Fixed16 numbers at offsets 8, 12 and 16.
#[verifier::opaque]
pub open spec fn xyz_tag_spec(icc: Seq<u8>, sig: Seq<u8>) -> Option<Xyz> {
    match tag_data_spec(icc, sig) {
        None => None,
        Some(d) => if d.len() < 20 || d.subrange(0, 4) != sig_xyz_type() {
            None
        } else {
            Some(
                Xyz {
                    x: be32(d[8], d[9], d[10], d[11]) as i32,
                    y: be32(d[12], d[13], d[14], d[15]) as i32,
                    z: be32(d[16], d[17], d[18], d[19]) as i32,
                },
            )
        },
    }
}

/// Read one XYZ tag.
pub fn parse_xyz_tag(icc: &[u8], sig: &[u8]) -> (r: Option<Xyz>)
    requires
        sig@.len() == 4,
    ensures
        r == xyz_tag_spec(icc@, sig@),
{
    proof {
        reveal(xyz_tag_spec);
    }
    let data = match tag_data(icc, sig) {
        Some(d) => d,
        None => {
            return None;
        },
    };
    let xyz_sig: [u8; 4] = [0x58, 0x59, 0x5A, 0x20];
    proof {
        assert(xyz_sig@ =~= sig_xyz_type());
    }
    if data.len() < 20 || !crate::binutil::slices_eq_at(data.as_slice(), xyz_sig.as_slice(), 0) {
        return None;
    }
    let x = read_u32_be(data.as_slice(), 8) as i32;
    let y = read_u32_be(data.as_slice(), 12) as i32;
    let z = read_u32_be(data.as_slice(), 16) as i32;
    Some(Xyz { x, y, z })
}

/// A triple has positive luminance sum, so its chromaticity is defined.
pub open spec fn xyz_valid(c: Xyz) -> bool {
    c.x + c.y + c.z > 0
}

/// The chromaticity coordinate `num / den` lies within the tolerance of the
/// reference coordinate `ref10k / 10000`; exact by cross-multiplication.
pub open spec fn coord_close(num: int, den: int, ref10k: int) -> bool
    recommends
        den > 0,
{
    let d = 10000 * num - ref10k * den;
    -(MATCH_TOLERANCE_10K as int) * den <= d <= (MATCH_TOLERANCE_10K as int) * den
}

/// One triple matches a reference chromaticity pair.
pub open spec fn xyz_close(c: Xyz, rx: int, ry: int) -> bool {
    let s = c.x + c.y + c.z;
    coord_close(c.x as int, s, rx) && coord_close(c.y as int, s, ry)
}

/// The whole primaries triangle matches a reference triangle given as three
/// chromaticity pairs in 1/10000 units.
pub open spec fn primaries_close_spec(
    p: Primaries,
    rx: (int, int),
    gx: (int, int),
    bx: (int, int),
) -> bool {
    xyz_close(p.r, rx.0, rx.1) && xyz_close(p.g, gx.0, gx.1) && xyz_close(p.b, bx.0, bx.1)
}

/// BT.709 / sRGB primaries.
pub open spec fn bt709_refs() -> ((int, int), (int, int), (int, int)) {
    ((6400, 3300), (3000, 6000), (1500, 600))
}

/// Display P3 primaries.
pub open spec fn display_p3_refs() -> ((int, int), (int, int), (int, int)) {
    ((6800, 3200), (2650, 6900), (1500, 600))
}

/// BT.2100 / Rec.2020 primaries.
pub open spec fn bt2100_refs() -> ((int, int), (int, int), (int, int)) {
    ((7080, 2920), (1700, 7970), (1310, 460))
}

/// Compare one coordinate pair exactly.
fn coord_close_exec(num: i32, den: i64, ref10k: i64) -> (r: bool)
    requires
        0 < den <= 3 * 0x80000000i64,
        0 <= ref10k <= 10000,
    ensures
        r == coord_close(num as int, den as int, ref10k as int),
{
    proof {
        assert(0 <= ref10k * den <= 10000 * (3 * 0x80000000int) && 0 <= MATCH_TOLERANCE_10K as int
            * den <= 10000 * (3 * 0x80000000int)) by (nonlinear_arith)
            requires
                0 <= ref10k <= 10000 && 0 < den <= 3 * 0x80000000int && MATCH_TOLERANCE_10K == 50,
        ;
    }
    let d: i64 = 10000i64 * (num as i64) - ref10k * den;
    let tol: i64 = MATCH_TOLERANCE_10K * den;
    -tol <= d && d <= tol
}

/// Compare one triple against a reference chromaticity pair.
fn xyz_close_exec(c: &Xyz, rx: i64, ry: i64) -> (r: bool)
    requires
        xyz_valid(*c),
        0 <= rx <= 10000,
        0 <= ry <= 10000,
    ensures
        r == xyz_close(*c, rx as int, ry as int),
{
    let s: i64 = c.x as i64 + c.y as i64 + c.z as i64;
    coord_close_exec(c.x, s, rx) && coord_close_exec(c.y, s, ry)
}

/// All three primaries are defined (positive luminance sums).
pub open spec fn primaries_valid(p: Primaries) -> bool {
    xyz_valid(p.r) && xyz_valid(p.g) && xyz_valid(p.b)
}

/// Classify a primaries triangle: Display P3 and BT.2100 are checked before
/// BT.709 so that the ubiquitous fallback cannot shadow them where the
/// tolerances overlap; the first match wins.
pub fn match_primaries(p: &Primaries) -> (r: Option<ColorGamut>)
    requires
        primaries_valid(*p),
    ensures
        r == (if primaries_close_spec(
            *p,
            display_p3_refs().0,
            display_p3_refs().1,
            display_p3_refs().2,
        ) {
            Some(ColorGamut::DisplayP3)
        } else if primaries_close_spec(*p, bt2100_refs().0, bt2100_refs().1, bt2100_refs().2) {
            Some(ColorGamut::Bt2100)
        } else if primaries_close_spec(*p, bt709_refs().0, bt709_refs().1, bt709_refs().2) {
            Some(ColorGamut::Bt709)
        } else {
            None
        }),
{
    if xyz_close_exec(&p.r, 6800, 3200) && xyz_close_exec(&p.g, 2650, 6900) && xyz_close_exec(
        &p.b,
        1500,
        600,
    ) {
        Some(ColorGamut::DisplayP3)
    } else if xyz_close_exec(&p.r, 7080, 2920) && xyz_close_exec(&p.g, 1700, 7970)
        && xyz_close_exec(&p.b, 1310, 460) {
        Some(ColorGamut::Bt2100)
    } else if xyz_close_exec(&p.r, 6400, 3300) && xyz_close_exec(&p.g, 3000, 6000)
        && xyz_close_exec(&p.b, 1500, 600) {
        Some(ColorGamut::Bt709)
    } else {
        None
    }
}

/// The primaries of the profile, when all three XYZ tags are present and
/// each triple has a defined chromaticity.
#[verifier::opaque]
pub open spec fn primaries_spec(icc: Seq<u8>) -> Option<Primaries> {
    match (xyz_tag_spec(icc, sig_rxyz()), xyz_tag_spec(icc, sig_gxyz()), xyz_tag_spec(
        icc,
        sig_bxyz(),
    )) {
        (Some(r), Some(g), Some(b)) => if xyz_valid(r) && xyz_valid(g) && xyz_valid(b) {
            Some(Primaries { r, g, b })
        } else {
            None
        },
        _ => None,
    }
}

/// Extract the primaries from the profile's XYZ tags.
pub fn parse_primaries(icc: &[u8]) -> (r: Option<Primaries>)
    ensures
        r == primaries_spec(icc@),
        r matches Some(p) ==> primaries_valid(p),
{
    proof {
        reveal(primaries_spec);
    }
    let sig_r: [u8; 4] = [0x72, 0x58, 0x59, 0x5A];
    let sig_g: [u8; 4] = [0x67, 0x58, 0x59, 0x5A];
    let sig_b: [u8; 4] = [0x62, 0x58, 0x59, 0x5A];
    proof {
        assert(sig_r@ =~= sig_rxyz());
        assert(sig_g@ =~= sig_gxyz());
        assert(sig_b@ =~= sig_bxyz());
    }
    let rr = match parse_xyz_tag(icc, sig_r.as_slice()) {
        Some(v) => v,
        None => {
            return None;
        },
    };
    let gg = match parse_xyz_tag(icc, sig_g.as_slice()) {
        Some(v) => v,
        None => {
            return None;
        },
    };
    let bb = match parse_xyz_tag(icc, sig_b.as_slice()) {
        Some(v) => v,
        None => {
            return None;
        },
    };
    let rv = rr.x as i64 + rr.y as i64 + rr.z as i64 > 0;
    let gv = gg.x as i64 + gg.y as i64 + gg.z as i64 > 0;
    let bv = bb.x as i64 + bb.y as i64 + bb.z as i64 > 0;
    if rv && gv && bv {
        Some(Primaries { r: rr, g: gg, b: bb })
    } else {
        None
    }
}

/// The profile-description text: the `desc` tag's text field, which must be
/// valid UTF-8, with trailing and leading NUL bytes removed.
#[verifier::opaque]
pub open spec fn profile_description_spec(icc: Seq<u8>) -> Option<Seq<u8>> {
    match tag_data_spec(icc, sig_desc()) {
        None => None,
        Some(d) => if d.len() < 12 || d.subrange(0, 4) != sig_desc() {
            None
        } else {
            let n = be32(d[8], d[9], d[10], d[11]) as int;
            if 12 + n > d.len() || n == 0 {
                None
            } else {
                let raw = d.subrange(12, 12 + n);
                if !vstd::utf8::valid_utf8(raw) {
                    None
                } else {
                    Some(trim_nuls(raw))
                }
            }
        },
    }
}

/// `s` without leading and trailing NUL bytes.
pub open spec fn trim_nuls(s: Seq<u8>) -> Seq<u8>
    decreases s.len(),
{
    if s.len() > 0 && s[0] == 0 {
        trim_nuls(s.drop_first())
    } else if s.len() > 0 && s[s.len() - 1] == 0 {
        trim_nuls(s.drop_last())
    } else {
        s
    }
}

/// Drop leading and trailing NUL bytes.
fn trim_nuls_exec(s: &[u8]) -> (r: Vec<u8>)
    ensures
        r@ == trim_nuls(s@),
{
    let mut lo: usize = 0;
    let mut hi: usize = s.len();
    proof {
        assert(s@.subrange(0, s@.len() as int) =~= s@);
    }
    loop
        invariant
            0 <= lo <= hi <= s@.len(),
            trim_nuls(s@) == trim_nuls(s@.subrange(lo as int, hi as int)),
        ensures
            0 <= lo <= hi <= s@.len(),
            trim_nuls(s@) == s@.subrange(lo as int, hi as int),
        decreases hi - lo,
    {
        if lo < hi && s[lo] == 0 {
            proof {
                assert(s@.subrange(lo as int, hi as int).drop_first() =~= s@.subrange(
                    lo + 1,
                    hi as int,
                ));
            }
            lo += 1;
        } else if lo < hi && s[hi - 1] == 0 {
            proof {
                let sub = s@.subrange(lo as int, hi as int);
                assert(sub[0] != 0 || sub.len() == 0);
                assert(sub.drop_last() =~= s@.subrange(lo as int, hi - 1));
            }
            hi -= 1;
        } else {
            proof {
                let sub = s@.subrange(lo as int, hi as int);
                if sub.len() > 0 {
                    assert(sub[0] != 0 && sub[sub.len() - 1] != 0);
                }
            }
            break;
        }
    }
    let mut out: Vec<u8> = Vec::new();
    let mut i: usize = lo;
    while i < hi
        invariant
            lo <= i <= hi <= s@.len(),
            out@ == s@.subrange(lo as int, i as int),
        decreases hi - i,
    {
        out.push(s[i]);
        proof {
            assert(out@ =~= s@.subrange(lo as int, i + 1));
        }
        i += 1;
    }
    proof {
        assert(out@ == s@.subrange(lo as int, hi as int));
    }
    out
}

/// Extract the profile-description text.
pub fn profile_description(icc: &[u8]) -> (r: Option<Vec<u8>>)
    ensures
        match r {
            Some(v) => profile_description_spec(icc@) == Some(v@),
            None => profile_description_spec(icc@) is None,
        },
{
    proof {
        reveal(profile_description_spec);
    }
    let sig_d: [u8; 4] = [0x64, 0x65, 0x73, 0x63];
    proof {
        assert(sig_d@ =~= sig_desc());
    }
    let tag = match tag_data(icc, sig_d.as_slice()) {
        Some(t) => t,
        None => {
            return None;
        },
    };
    if tag.len() < 12 || !crate::binutil::slices_eq_at(tag.as_slice(), sig_d.as_slice(), 0) {
        return None;
    }
    let n = read_u32_be(tag.as_slice(), 8) as usize;
    if n as u64 > (tag.len() - 12) as u64 || n == 0 {
        return None;
    }
    let raw = vstd::slice::slice_subrange(tag.as_slice(), 12, 12 + n);
    if !crate::binutil::is_valid_utf8(raw) {
        return None;
    }
    Some(trim_nuls_exec(raw))
}

/// `n` occurs somewhere in `h`.
pub open spec fn contains_sub(h: Seq<u8>, n: Seq<u8>) -> bool {
    exists|i: int| matches_at(h, n, i)
}

/// The lower-cased bytes of `s`.
pub open spec fn lowered(s: Seq<u8>) -> Seq<u8> {
    Seq::new(s.len(), |i: int| lower_byte(s[i]))
}

/// The gamut hinted at by the description text: the text is lower-cased and
/// scanned for well-known substrings, P3 first, then BT.2100, then BT.709.
#[verifier::opaque]
pub open spec fn desc_hint_spec(desc: Seq<u8>) -> Option<ColorGamut> {
    let lower = lowered(desc);
    if contains_sub(lower, "p3".spec_bytes()) {
        Some(ColorGamut::DisplayP3)
    } else if contains_sub(lower, "2020".spec_bytes()) || contains_sub(
        lower,
        "2100".spec_bytes(),
    ) {
        Some(ColorGamut::Bt2100)
    } else if contains_sub(lower, "srgb".spec_bytes()) || contains_sub(
        lower,
        "709".spec_bytes(),
    ) {
        Some(ColorGamut::Bt709)
    } else {
        None
    }
}

/// Match the description text against well-known gamut names.
pub fn match_desc_hint(desc: &[u8]) -> (r: Option<ColorGamut>)
    ensures
        r == desc_hint_spec(desc@),
{
    proof {
        reveal(desc_hint_spec);
    }
    let lower = to_ascii_lower(desc);
    if crate::binutil::contains_subslice(lower.as_slice(), "p3".as_bytes()) {
        Some(ColorGamut::DisplayP3)
    } else if crate::binutil::contains_subslice(lower.as_slice(), "2020".as_bytes())
        || crate::binutil::contains_subslice(lower.as_slice(), "2100".as_bytes()) {
        Some(ColorGamut::Bt2100)
    } else if crate::binutil::contains_subslice(lower.as_slice(), "srgb".as_bytes())
        || crate::binutil::contains_subslice(lower.as_slice(), "709".as_bytes()) {
        Some(ColorGamut::Bt709)
    } else {
        None
    }
}

/// The gamut detected from a parsed document's segments: primaries first,
/// description hint as the fallback.
#[verifier::opaque]
pub open spec fn gamut_of_segments(ss: Seq<JpegSegment>) -> Option<ColorGamut> {
    match icc_profile_spec(ss) {
        None => None,
        Some(icc) => match primaries_spec(icc) {
            Some(p) => if primaries_close_spec(
                p,
                display_p3_refs().0,
                display_p3_refs().1,
                display_p3_refs().2,
            ) {
                Some(ColorGamut::DisplayP3)
            } else if primaries_close_spec(p, bt2100_refs().0, bt2100_refs().1, bt2100_refs().2) {
                Some(ColorGamut::Bt2100)
            } else if primaries_close_spec(p, bt709_refs().0, bt709_refs().1, bt709_refs().2) {
                Some(ColorGamut::Bt709)
            } else {
                match profile_description_spec(icc) {
                    Some(d) => desc_hint_spec(d),
                    None => None,
                }
            },
            None => match profile_description_spec(icc) {
                Some(d) => desc_hint_spec(d),
                None => None,
            },
        },
    }
}

/// Best-effort ICC-based color gamut detection for a JPEG: always returns
/// `None` rather than erroring, because the result is a hint.
pub fn detect_icc_color_gamut(bytes: &[u8]) -> (r: Option<ColorGamut>)
    ensures
        !crate::jpeg::valid_jpeg(bytes@) ==> r is None,
        crate::jpeg::valid_jpeg(bytes@) ==> exists|segs: Seq<JpegSegment>, tail: Seq<u8>|
            #[trigger] crate::jpeg::doc_encodes_to(segs, tail, bytes@)
                && crate::jpeg::canonical_split(segs, tail) && gamut_of_segments(segs) == r,
{
    let doc = match JpegDocument::parse(bytes) {
        Ok(d) => d,
        Err(_) => {
            return None;
        },
    };
    let ghost segs = doc.segments@;
    let ghost dtail = doc.tail@;
    proof {
        assert(crate::jpeg::doc_encodes_to(segs, dtail, bytes@));
        assert(crate::jpeg::canonical_split(segs, dtail));
    }
    let icc = match icc_profile(&doc) {
        Some(v) => v,
        None => {
            proof {
                reveal(gamut_of_segments);
                assert(gamut_of_segments(segs) == Option::<ColorGamut>::None);
            }
            return None;
        },
    };
    let hint = match parse_primaries(icc.as_slice()) {
        Some(p) => {
            match match_primaries(&p) {
                Some(cg) => Some(cg),
                None => None,
            }
        },
        None => None,
    };
    let r = match hint {
        Some(cg) => Some(cg),
        None => {
            match profile_description(icc.as_slice()) {
                Some(d) => match_desc_hint(d.as_slice()),
                None => None,
            }
        },
    };
    proof {
        reveal(gamut_of_segments);
        assert(gamut_of_segments(segs) == r);
    }
    r
}

/// A human-readable label for a gamut.
pub fn gamut_label(cg: ColorGamut) -> (r: &'static str)
    ensures
        r@ == (match cg {
            ColorGamut::Bt709 => "BT.709 / sRGB"@,
            ColorGamut::Bt2100 => "BT.2100 / Rec.2020"@,
            ColorGamut::DisplayP3 => "Display P3"@,
            ColorGamut::Unspecified => "unspecified"@,
        }),
{
    match cg {
        ColorGamut::Bt709 => "BT.709 / sRGB",
        ColorGamut::Bt2100 => "BT.2100 / Rec.2020",
        ColorGamut::DisplayP3 => "Display P3",
        ColorGamut::Unspecified => "unspecified",
    }
}

} // verus!
