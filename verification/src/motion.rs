//! Motion Photo assembly: resolving the photo/video input pair, stripping and
//! reinserting the XMP segment, patching the MPF table, and concatenating the
//! primary JPEG with the video clip.

use vstd::prelude::*;

use crate::jpeg::{JpegDocument, JpegError, JpegSegment, MARKER_APP0, MARKER_APP1, MARKER_APP2};
use crate::mpf::{mpf_parse, mpf_sig, MpfError, MpfInfo};

verus! {

use vstd::string::StringSliceAdditionalSpecFns;

/// The byte lengths that drive XMP and MPF generation: primary JPEG length,
/// optional gain-map length, video length, and the presentation timestamp.
/// Recomputed whenever a re-encode changes segment byte lengths.
#[derive(Clone, Copy, Debug)]
pub struct MotionMeta {
    /// Length in bytes of the primary (still) JPEG.
    pub primary_len: usize,
    /// Length in bytes of the embedded gain map, when one is present.
    pub gainmap_len: Option<usize>,
    /// Length in bytes of the appended video clip.
    pub video_len: usize,
    /// Presentation timestamp of the still frame, in microseconds.
    pub presentation_timestamp_us: u64,
}

/// Why a Motion Photo could not be assembled.
#[derive(Clone, Copy, Debug, PartialEq, Eq, Structural)]
pub enum MotionError {
    /// The still image is not a JPEG this model accepts.
    InvalidJpeg(JpegError),
    /// The XMP packet grew past what a single APP1 segment can hold.
    XmpTooLarge,
    /// No APP2 segment carrying an MPF payload: the UltraHDR layout is
    /// missing.
    MpfSegmentMissing,
    /// The MPF payload was rejected.
    Mpf(MpfError),
    /// The encoded stream is shorter than the secondary image it claims.
    PrimaryLenUnderflow,
    /// The `MPF\0` signature was not found in the encoded stream.
    MpfPayloadStartMissing,
    /// The primary image ends before the TIFF base: the layout invariant is
    /// violated.
    GainmapOffsetUnderflow,
}

/// The description text of each assembly failure.
#[verifier::opaque]
pub open spec fn motion_error_text(e: MotionError) -> Seq<char> {
    match e {
        MotionError::InvalidJpeg(_) => "failed to parse the photo as a JPEG"@,
        MotionError::XmpTooLarge => "XMP packet too large for one APP1 segment"@,
        MotionError::MpfSegmentMissing => "MPF APP2 segment not found; UltraHDR layout missing"@,
        MotionError::Mpf(e2) => crate::mpf::mpf_error_text(e2),
        MotionError::PrimaryLenUnderflow => "primary length underflow after encode"@,
        MotionError::MpfPayloadStartMissing => "failed to find MPF payload start"@,
        MotionError::GainmapOffsetUnderflow => "gain map offset underflow"@,
    }
}

impl MotionError {
    /// A short description of the failure.
    pub fn message(&self) -> (r: &'static str)
        ensures
            r@ == motion_error_text(*self),
    {
        proof {
            reveal(motion_error_text);
            reveal(crate::mpf::mpf_error_text);
        }
        match self {
            MotionError::InvalidJpeg(_) => "failed to parse the photo as a JPEG",
            MotionError::XmpTooLarge => "XMP packet too large for one APP1 segment",
            MotionError::MpfSegmentMissing => "MPF APP2 segment not found; UltraHDR layout missing",
            MotionError::Mpf(e) => e.message(),
            MotionError::PrimaryLenUnderflow => "primary length underflow after encode",
            MotionError::MpfPayloadStartMissing => "failed to find MPF payload start",
            MotionError::GainmapOffsetUnderflow => "gain map offset underflow",
        }
    }
}

/// The XMP APP1 signature prefix.
pub open spec fn xmp_prefix() -> Seq<u8> {
    "http://ns.adobe.com/xap/1.0/\u{0}".spec_bytes()
}

/// An APP1 segment carrying an XMP packet.
pub open spec fn is_xmp_seg(s: JpegSegment) -> bool {
    s.marker == MARKER_APP1 && s.contents@.len() >= xmp_prefix().len() && s.contents@.subrange(
        0,
        xmp_prefix().len() as int,
    ) == xmp_prefix()
}

/// An APP2 segment carrying an MPF payload.
pub open spec fn is_mpf_seg(s: JpegSegment) -> bool {
    s.marker == MARKER_APP2 && s.contents@.len() >= 4 && s.contents@.subrange(0, 4) == mpf_sig()
}

/// The segment run with every XMP segment removed.
pub open spec fn strip_xmp(ss: Seq<JpegSegment>) -> Seq<JpegSegment>
    decreases ss.len(),
{
    if ss.len() == 0 {
        Seq::empty()
    } else if is_xmp_seg(ss[0]) {
        strip_xmp(ss.drop_first())
    } else {
        seq![ss[0]] + strip_xmp(ss.drop_first())
    }
}

/// The body (after the signature prefix) of the first XMP segment, if any.
pub open spec fn first_xmp_body(ss: Seq<JpegSegment>) -> Option<Seq<u8>>
    decreases ss.len(),
{
    if ss.len() == 0 {
        None
    } else if is_xmp_seg(ss[0]) {
        Some(ss[0].contents@.skip(xmp_prefix().len() as int))
    } else {
        first_xmp_body(ss.drop_first())
    }
}

/// Index of the first segment that is neither APP0 nor APP1 (the metadata
/// cluster ends there), or the length.
pub open spec fn xmp_insert_pos(ss: Seq<JpegSegment>, i: int) -> int
    decreases ss.len() - i when 0 <= i
{
    if i >= ss.len() {
        ss.len() as int
    } else if ss[i].marker != MARKER_APP0 && ss[i].marker != MARKER_APP1 {
        i
    } else {
        xmp_insert_pos(ss, i + 1)
    }
}

/// Index of the first MPF segment, or the length.
pub open spec fn mpf_seg_idx(ss: Seq<JpegSegment>, i: int) -> int
    decreases ss.len() - i when 0 <= i
{
    if i >= ss.len() {
        ss.len() as int
    } else if is_mpf_seg(ss[i]) {
        i
    } else {
        mpf_seg_idx(ss, i + 1)
    }
}

proof fn lemma_strip_xmp_push(ss: Seq<JpegSegment>, s: JpegSegment)
    ensures
        strip_xmp(ss.push(s)) == if is_xmp_seg(s) {
            strip_xmp(ss)
        } else {
            strip_xmp(ss) + seq![s]
        },
    decreases ss.len(),
{
    if ss.len() == 0 {
        assert(ss.push(s)[0] == s);
        assert(ss.push(s).drop_first() =~= ss);
        if is_xmp_seg(s) {
            assert(strip_xmp(ss.push(s)) =~= strip_xmp(ss));
        } else {
            assert(strip_xmp(ss.push(s)) =~= strip_xmp(ss) + seq![s]);
        }
    } else {
        assert(ss.push(s)[0] == ss[0]);
        assert(ss.push(s).drop_first() =~= ss.drop_first().push(s));
        lemma_strip_xmp_push(ss.drop_first(), s);
        if is_xmp_seg(ss[0]) {
            assert(strip_xmp(ss.push(s)) =~= (if is_xmp_seg(s) {
                strip_xmp(ss)
            } else {
                strip_xmp(ss) + seq![s]
            }));
        } else {
            assert(strip_xmp(ss.push(s)) =~= (if is_xmp_seg(s) {
                strip_xmp(ss)
            } else {
                strip_xmp(ss) + seq![s]
            }));
        }
    }
}

proof fn lemma_first_xmp_push(ss: Seq<JpegSegment>, s: JpegSegment)
    ensures
        first_xmp_body(ss.push(s)) == (match first_xmp_body(ss) {
            Some(b) => Some(b),
            None => if is_xmp_seg(s) {
                Some(s.contents@.skip(xmp_prefix().len() as int))
            } else {
                None
            },
        }),
    decreases ss.len(),
{
    if ss.len() == 0 {
        assert(ss.push(s)[0] == s);
        assert(ss.push(s).drop_first() =~= ss);
    } else {
        assert(ss.push(s).drop_first() =~= ss.drop_first().push(s));
        lemma_first_xmp_push(ss.drop_first(), s);
    }
}

/// Remove every XMP APP1 segment from the document, returning the body of
/// the first one (without the signature prefix) for reuse.
pub fn take_existing_xmp(doc: &mut JpegDocument) -> (r: Option<Vec<u8>>)
    ensures
        final(doc).segments@ == strip_xmp(old(doc).segments@),
        final(doc).tail == old(doc).tail,
        match r {
            Some(v) => first_xmp_body(old(doc).segments@) == Some(v@),
            None => first_xmp_body(old(doc).segments@) is None,
        },
{
    let ghost orig = doc.segments@;
    let mut found: Option<Vec<u8>> = None;
    let mut i: usize = 0;
    let ghost mut j: int = 0;
    proof {
        assert(orig.take(0) =~= Seq::empty());
        assert(strip_xmp(orig.take(0)) + orig.skip(0) =~= orig);
    }
    loop
        invariant
            0 <= i <= doc.segments@.len(),
            0 <= j <= orig.len(),
            doc.segments@ == strip_xmp(orig.take(j)) + orig.skip(j),
            i == strip_xmp(orig.take(j)).len(),
            doc.tail == old(doc).tail,
            orig == old(doc).segments@,
            match found {
                Some(v) => first_xmp_body(orig.take(j)) == Some(v@),
                None => first_xmp_body(orig.take(j)) is None,
            },
        decreases orig.len() - j,
    {
        if i >= doc.segments.len() {
            proof {
                assert(orig.skip(j).len() == 0);
                assert(j == orig.len());
                assert(orig.take(j) =~= orig);
            }
            return found;
        }
        proof {
            assert(doc.segments@[i as int] == orig.skip(j)[0]);
            assert(orig.skip(j)[0] == orig[j]);
        }
        let seg_marker = doc.segments[i].marker;
        let is_xmp = seg_marker == MARKER_APP1 && {
            let c = &doc.segments[i].contents;
            crate::binutil::starts_with(c.as_slice(), "http://ns.adobe.com/xap/1.0/\u{0}".as_bytes())
        };
        proof {
            assert(is_xmp == is_xmp_seg(orig[j]));
            assert(orig.take(j + 1) =~= orig.take(j).push(orig[j]));
            lemma_strip_xmp_push(orig.take(j), orig[j]);
            lemma_first_xmp_push(orig.take(j), orig[j]);
        }
        if is_xmp {
            let seg = doc.segments.remove(i);
            if found.is_none() {
                let plen = "http://ns.adobe.com/xap/1.0/\u{0}".as_bytes().len();
                let body_slice = vstd::slice::slice_subrange(
                    seg.contents.as_slice(),
                    plen,
                    seg.contents.len(),
                );
                let body = vstd::slice::slice_to_vec(body_slice);
                proof {
                    assert(body@ =~= seg.contents@.skip(xmp_prefix().len() as int));
                }
                found = Some(body);
            }
            proof {
                assert(doc.segments@ =~= strip_xmp(orig.take(j + 1)) + orig.skip(j + 1));
            }
        } else {
            i += 1;
            proof {
                assert(doc.segments@ =~= strip_xmp(orig.take(j + 1)) + orig.skip(j + 1));
            }
        }
        proof {
            j = j + 1;
        }
    }
}

/// Insert a fresh XMP APP1 segment (signature prefix plus `xmp_body`)
/// immediately before the first segment that is neither APP0 nor APP1, so
/// that metadata segments stay clustered behind any JFIF/EXIF header.
/// Returns the insertion index.
pub fn upsert_xmp(doc: &mut JpegDocument, xmp_body: &[u8]) -> (pos: usize)
    requires
        xmp_body@.len() + xmp_prefix().len() + 2 <= 0xFFFF,
    ensures
        pos == xmp_insert_pos(old(doc).segments@, 0),
        0 <= pos <= old(doc).segments@.len(),
        final(doc).segments@ == old(doc).segments@.insert(
            pos as int,
            final(doc).segments@[pos as int],
        ),
        final(doc).segments@[pos as int].marker == MARKER_APP1,
        final(doc).segments@[pos as int].contents@ == xmp_prefix() + xmp_body@,
        final(doc).tail == old(doc).tail,
{
    let mut contents: Vec<u8> = Vec::new();
    crate::binutil::push_str_bytes(&mut contents, "http://ns.adobe.com/xap/1.0/\u{0}");
    contents.extend_from_slice(xmp_body);
    let ghost orig = doc.segments@;
    let mut pos: usize = 0;
    loop
        invariant
            0 <= pos <= doc.segments@.len(),
            doc.segments@ == orig,
            xmp_insert_pos(orig, 0) == xmp_insert_pos(orig, pos as int),
        ensures
            doc.segments@ == orig,
            pos == xmp_insert_pos(orig, 0),
        decreases doc.segments@.len() - pos,
    {
        if pos >= doc.segments.len() {
            break;
        }
        let m = doc.segments[pos].marker;
        if m != MARKER_APP0 && m != MARKER_APP1 {
            break;
        }
        pos += 1;
    }
    let seg = JpegSegment { marker: MARKER_APP1, contents };
    doc.segments.insert(pos, seg);
    pos
}

/// Find the first APP2 segment carrying an MPF payload and parse it.
pub fn find_mpf_segment(doc: &JpegDocument) -> (r: Result<MpfInfo, MotionError>)
    ensures
        ({
            let ss = doc.segments@;
            let mi = mpf_seg_idx(ss, 0);
            match r {
                Ok(info) => mi < ss.len() && info.segment_index == mi && mpf_parse(
                    ss[mi].contents@,
                ) == Ok::<_, MpfError>((info.primary_size as u32, info.secondary_size as u32))
                    && info.primary_size <= u32::MAX && info.secondary_size <= u32::MAX,
                Err(MotionError::MpfSegmentMissing) => mi == ss.len(),
                Err(MotionError::Mpf(e)) => mi < ss.len() && mpf_parse(ss[mi].contents@) == Err::<
                    (u32, u32),
                    _,
                >(e),
                Err(_) => false,
            }
        }),
{
    let ghost ss = doc.segments@;
    let mut i: usize = 0;
    loop
        invariant
            0 <= i <= ss.len(),
            ss == doc.segments@,
            mpf_seg_idx(ss, 0) == mpf_seg_idx(ss, i as int),
        decreases ss.len() - i,
    {
        if i >= doc.segments.len() {
            return Err(MotionError::MpfSegmentMissing);
        }
        let is_mpf = doc.segments[i].marker == MARKER_APP2 && {
            let c = &doc.segments[i].contents;
            let sig: [u8; 4] = [0x4D, 0x50, 0x46, 0x00];
            crate::binutil::starts_with(c.as_slice(), sig.as_slice())
        };
        proof {
            assert(is_mpf == is_mpf_seg(ss[i as int]));
        }
        if is_mpf {
            match crate::mpf::parse_mpf_payload(doc.segments[i].contents.as_slice()) {
                Ok(info) => {
                    return Ok(
                        MpfInfo {
                            segment_index: i,
                            primary_size: info.primary_size,
                            secondary_size: info.secondary_size,
                        },
                    );
                },
                Err(e) => {
                    return Err(MotionError::Mpf(e));
                },
            }
        }
        i += 1;
    }
}

/// Replace the segment at `idx` with one holding `marker` and `contents`.
pub fn replace_segment(doc: &mut JpegDocument, idx: usize, marker: u8, contents: Vec<u8>)
    requires
        idx < old(doc).segments@.len(),
    ensures
        final(doc).segments@ == old(doc).segments@.update(
            idx as int,
            final(doc).segments@[idx as int],
        ),
        final(doc).segments@[idx as int].marker == marker,
        final(doc).segments@[idx as int].contents@ == contents@,
        final(doc).tail == old(doc).tail,
{
    let seg = JpegSegment { marker, contents };
    doc.segments[idx] = seg;
}

/// First position of the `MPF\0` signature within `bytes`, or the length if
/// it never occurs.
pub open spec fn first_sig_pos(h: Seq<u8>, i: int) -> int
    decreases h.len() - i when 0 <= i
{
    if i + 4 > h.len() {
        h.len() as int
    } else if h.subrange(i, i + 4) == mpf_sig() {
        i
    } else {
        first_sig_pos(h, i + 1)
    }
}

/// Locate the `MPF\0` signature in an encoded stream.
pub fn find_mpf_offset_bytes(bytes: &[u8]) -> (r: Option<usize>)
    ensures
        match r {
            Some(p) => first_sig_pos(bytes@, 0) == p && p + 4 <= bytes@.len(),
            None => first_sig_pos(bytes@, 0) == bytes@.len(),
        },
{
    let blen = bytes.len();
    let sig: [u8; 4] = [0x4D, 0x50, 0x46, 0x00];
    proof {
        assert(sig@ =~= mpf_sig());
    }
    let mut i: usize = 0;
    loop
        invariant
            0 <= i <= blen,
            blen == bytes@.len(),
            sig@ == mpf_sig(),
            first_sig_pos(bytes@, 0) == first_sig_pos(bytes@, i as int),
        decreases blen - i,
    {
        if blen - i < 4 {
            proof {
                assert(first_sig_pos(bytes@, i as int) == blen);
            }
            return None;
        }
        if crate::binutil::slices_eq_at(bytes, sig.as_slice(), i) {
            proof {
                assert(bytes@.subrange(i as int, i + 4) =~= mpf_sig());
            }
            return Some(i);
        }
        proof {
            assert(bytes@.subrange(i as int, i + 4) != mpf_sig());
        }
        i += 1;
    }
}

/// The encoded bytes of a segment built from a marker and content bytes.
pub open spec fn raw_seg_bytes(marker: u8, contents: Seq<u8>) -> Seq<u8> {
    seq![0xFFu8, marker] + crate::binutil::u16_be_bytes((contents.len() + 2) as u16) + contents
}

/// The encoded document after inserting a fresh XMP segment with `body` at
/// the metadata insertion point.
pub open spec fn upserted_doc_bytes(
    segs: Seq<JpegSegment>,
    tail: Seq<u8>,
    body: Seq<u8>,
) -> Seq<u8> {
    let p = xmp_insert_pos(segs, 0);
    seq![0xFFu8, 0xD8u8] + crate::jpeg::segs_bytes(segs.take(p)) + raw_seg_bytes(
        MARKER_APP1,
        xmp_prefix() + body,
    ) + crate::jpeg::segs_bytes(segs.skip(p)) + tail
}

/// The metadata record for a primary-length guess.
pub open spec fn meta_of(g: usize, gm: Option<usize>, vlen: usize, ts: u64) -> MotionMeta {
    MotionMeta { primary_len: g, gainmap_len: gm, video_len: vlen, presentation_timestamp_us: ts }
}

/// One re-encode with the XMP packet built for primary-length guess `g`.
pub open spec fn plain_step(
    segs: Seq<JpegSegment>,
    tail: Seq<u8>,
    ex: Option<Seq<u8>>,
    ts: u64,
    vlen: usize,
    g: usize,
) -> Seq<u8> {
    upserted_doc_bytes(segs, tail, crate::xmp::motion_xmp_bytes(ex, meta_of(g, None, vlen, ts)))
}

/// The bounded fixed-point iteration of the plain (no gain map) path: rebuild
/// the XMP packet with the measured length until the encoded length
/// stabilizes, for at most `k` rounds. `None` when an XMP packet along the
/// way cannot fit one APP1 segment.
pub open spec fn plain_rounds(
    segs: Seq<JpegSegment>,
    tail: Seq<u8>,
    ex: Option<Seq<u8>>,
    ts: u64,
    vlen: usize,
    g: usize,
    k: nat,
) -> Option<Seq<u8>>
    decreases k,
{
    let body = crate::xmp::motion_xmp_bytes(ex, meta_of(g, None, vlen, ts));
    if body.len() + xmp_prefix().len() + 2 > 0xFFFF {
        None
    } else {
        let e = plain_step(segs, tail, ex, ts, vlen, g);
        if e.len() == g || k <= 1 {
            Some(e)
        } else {
            plain_rounds(segs, tail, ex, ts, vlen, e.len() as usize, (k - 1) as nat)
        }
    }
}

/// Build XMP segment contents: the signature prefix followed by the packet.
fn make_xmp_contents(body: &[u8]) -> (r: Vec<u8>)
    ensures
        r@ == xmp_prefix() + body@,
{
    let mut contents: Vec<u8> = Vec::new();
    crate::binutil::push_str_bytes(&mut contents, "http://ns.adobe.com/xap/1.0/\u{0}");
    contents.extend_from_slice(body);
    contents
}

/// Assemble the primary JPEG of a plain (no gain map) Motion Photo:
/// iteratively rebuild the XMP packet until the embedded primary length
/// matches the encoded length, capped at four rounds.
#[verifier::rlimit(100)]
pub fn build_plain_motion(
    video_bytes: &[u8],
    base_jpeg: JpegDocument,
    existing_xmp: Option<&[u8]>,
    presentation_timestamp_us: u64,
) -> (r: Result<(Vec<u8>, MotionMeta), MotionError>)
    requires
        crate::jpeg::doc_wf(base_jpeg),
    ensures
        ({
            let rounds = plain_rounds(
                base_jpeg.segments@,
                base_jpeg.tail@,
                match existing_xmp {
                    Some(e) => Some(e@),
                    None => None,
                },
                presentation_timestamp_us,
                video_bytes@.len() as usize,
                crate::jpeg::doc_bytes(base_jpeg).len() as usize,
                4,
            );
            match r {
                Ok((bytes, meta)) => rounds == Some(bytes@) && meta.primary_len == bytes@.len()
                    && meta.gainmap_len is None && meta.video_len == video_bytes@.len()
                    && meta.presentation_timestamp_us == presentation_timestamp_us,
                Err(e) => e == MotionError::XmpTooLarge && rounds is None,
            }
        }),
{
    let ghost segs0 = base_jpeg.segments@;
    let ghost tail0 = base_jpeg.tail@;
    let ghost exv: Option<Seq<u8>> = match existing_xmp {
        Some(e) => Some(e@),
        None => None,
    };
    let ghost ts = presentation_timestamp_us;
    let vlen = video_bytes.len();
    let pre_len = "http://ns.adobe.com/xap/1.0/\u{0}".as_bytes().len();
    let mut doc = base_jpeg;
    let encoded0 = doc.encode();
    let mut g: usize = encoded0.len();
    let ghost g0 = g;
    let mut k: usize = 4;
    let meta_g = MotionMeta {
        primary_len: g,
        gainmap_len: None,
        video_len: vlen,
        presentation_timestamp_us,
    };
    let body = crate::xmp::build_motion_xmp(existing_xmp, &meta_g);
    proof {
        assert(body@ == crate::xmp::motion_xmp_bytes(exv, meta_of(g, None, vlen, ts)));
    }
    if body.len() > 0xFFFF || pre_len > 0xFFFF || body.len() + pre_len + 2 > 0xFFFF {
        proof {
            assert(plain_rounds(segs0, tail0, exv, ts, vlen, g, 4) is None);
        }
        return Err(MotionError::XmpTooLarge);
    }
    let p = upsert_xmp(&mut doc, body.as_slice());
    proof {
        lemma_doc_wf_insert(segs0, p as int, doc.segments@[p as int]);
    }
    let mut encoded = doc.encode();
    proof {
        lemma_upserted_encode(segs0, tail0, p as int, doc.segments@[p as int], body@);
        assert(encoded@ == plain_step(segs0, tail0, exv, ts, vlen, g));
    }
    loop
        invariant
            1 <= k <= 4,
            segs0 == base_jpeg.segments@,
            tail0 == base_jpeg.tail@,
            g0 == crate::jpeg::doc_bytes(base_jpeg).len() as usize,
            vlen == video_bytes@.len(),
            exv == (match existing_xmp {
                Some(e) => Some(e@),
                None => None::<Seq<u8>>,
            }),
            ts == presentation_timestamp_us,
            pre_len == xmp_prefix().len(),
            crate::xmp::motion_xmp_bytes(exv, meta_of(g, None, vlen, ts)).len() + xmp_prefix().len()
                + 2 <= 0xFFFF,
            encoded@ == plain_step(segs0, tail0, exv, ts, vlen, g),
            plain_rounds(segs0, tail0, exv, ts, vlen, g0, 4) == plain_rounds(
                segs0,
                tail0,
                exv,
                ts,
                vlen,
                g,
                k as nat,
            ),
            0 <= xmp_insert_pos(segs0, 0) <= segs0.len(),
            p == xmp_insert_pos(segs0, 0),
            forall|k2: int| 0 <= k2 < segs0.len() ==> crate::jpeg::seg_wf(#[trigger] segs0[k2]),
            crate::jpeg::doc_wf(doc),
            doc.tail@ == tail0,
            doc.segments@ == segs0.insert(p as int, doc.segments@[p as int]),
            doc.segments@[p as int].marker == MARKER_APP1,
        decreases k,
    {
        if encoded.len() == g || k <= 1 {
            let elen = encoded.len();
            let meta = MotionMeta {
                primary_len: elen,
                gainmap_len: None,
                video_len: vlen,
                presentation_timestamp_us,
            };
            proof {
                assert(plain_rounds(segs0, tail0, exv, ts, vlen, g, k as nat) == Some(encoded@));
            }
            return Ok((encoded, meta));
        }
        let g_new = encoded.len();
        let ghost k_old = k as nat;
        let ghost g_old = g;
        k -= 1;
        g = g_new;
        let meta_g = MotionMeta {
            primary_len: g,
            gainmap_len: None,
            video_len: vlen,
            presentation_timestamp_us,
        };
        let body = crate::xmp::build_motion_xmp(existing_xmp, &meta_g);
        proof {
            assert(body@ == crate::xmp::motion_xmp_bytes(exv, meta_of(g, None, vlen, ts)));
            assert(plain_rounds(segs0, tail0, exv, ts, vlen, g_old, k_old) == plain_rounds(
                segs0,
                tail0,
                exv,
                ts,
                vlen,
                g,
                (k_old - 1) as nat,
            ));
        }
        if body.len() > 0xFFFF || pre_len > 0xFFFF || body.len() + pre_len + 2 > 0xFFFF {
            proof {
                assert(plain_rounds(segs0, tail0, exv, ts, vlen, g, (k_old - 1) as nat) is None);
            }
            return Err(MotionError::XmpTooLarge);
        }
        let contents = make_xmp_contents(body.as_slice());
        replace_segment(&mut doc, p, MARKER_APP1, contents);
        proof {
            assert(doc.segments@ =~= segs0.insert(p as int, doc.segments@[p as int]));
            lemma_doc_wf_insert(segs0, p as int, doc.segments@[p as int]);
        }
        encoded = doc.encode();
        proof {
            lemma_upserted_encode(segs0, tail0, p as int, doc.segments@[p as int], body@);
            assert(encoded@ == plain_step(segs0, tail0, exv, ts, vlen, g));
        }
    }
}

/// Inserting a well-formed segment into a well-formed run keeps every
/// segment well formed.
proof fn lemma_doc_wf_insert(segs: Seq<JpegSegment>, p: int, s: JpegSegment)
    requires
        0 <= p <= segs.len(),
        forall|k: int| 0 <= k < segs.len() ==> crate::jpeg::seg_wf(#[trigger] segs[k]),
        crate::jpeg::seg_wf(s),
    ensures
        forall|k: int|
            0 <= k < segs.insert(p, s).len() ==> crate::jpeg::seg_wf(#[trigger] segs.insert(p, s)[k]),
{
    assert forall|k: int|
        0 <= k < segs.insert(p, s).len() implies crate::jpeg::seg_wf(#[trigger] segs.insert(p, s)[k]) by {
        if k < p {
            assert(segs.insert(p, s)[k] == segs[k]);
        } else if k == p {
            assert(segs.insert(p, s)[k] == s);
        } else {
            assert(segs.insert(p, s)[k] == segs[k - 1]);
        }
    }
}

/// The encoded bytes of a document whose segments are `segs` with `s`
/// inserted at the metadata insertion point.
proof fn lemma_upserted_encode(
    segs: Seq<JpegSegment>,
    tail: Seq<u8>,
    p: int,
    s: JpegSegment,
    body: Seq<u8>,
)
    requires
        p == xmp_insert_pos(segs, 0),
        0 <= p <= segs.len(),
        s.marker == MARKER_APP1,
        s.contents@ == xmp_prefix() + body,
    ensures
        seq![0xFFu8, 0xD8u8] + crate::jpeg::segs_bytes(segs.insert(p, s)) + tail
            == upserted_doc_bytes(segs, tail, body),
{
    assert(segs.insert(p, s) =~= segs.take(p) + (seq![s] + segs.skip(p)));
    crate::jpeg::lemma_segs_bytes_concat(segs.take(p), seq![s] + segs.skip(p));
    crate::jpeg::lemma_segs_bytes_concat(seq![s], segs.skip(p));
    assert(seq![s][0] == s);
    assert(seq![s].drop_first() =~= Seq::<JpegSegment>::empty());
    assert(crate::jpeg::segs_bytes(Seq::<JpegSegment>::empty()) =~= Seq::<u8>::empty());
    assert(crate::jpeg::segs_bytes(seq![s]) =~= crate::jpeg::seg_bytes(s));
    assert(crate::jpeg::seg_bytes(s) =~= raw_seg_bytes(MARKER_APP1, xmp_prefix() + body));
    assert(seq![0xFFu8, 0xD8u8] + crate::jpeg::segs_bytes(segs.insert(p, s)) + tail
        =~= upserted_doc_bytes(segs, tail, body));
}


/// The encoded document after both the XMP insertion and the MPF rewrite:
/// the fresh XMP segment sits at the metadata insertion point and the APP2
/// segment that held the MPF table (at `mi` in the original run) holds
/// `payload`.
#[verifier::opaque]
pub open spec fn ultra_final_bytes(
    segs: Seq<JpegSegment>,
    tail: Seq<u8>,
    body: Seq<u8>,
    mi: int,
    payload: Seq<u8>,
) -> Seq<u8> {
    let p = xmp_insert_pos(segs, 0);
    seq![0xFFu8, 0xD8u8] + crate::jpeg::segs_bytes(segs.take(p)) + raw_seg_bytes(
        MARKER_APP1,
        xmp_prefix() + body,
    ) + crate::jpeg::segs_bytes(segs.subrange(p, mi)) + raw_seg_bytes(MARKER_APP2, payload)
        + crate::jpeg::segs_bytes(segs.skip(mi + 1)) + tail
}

/// The whole UltraHDR Motion Photo rewrite: read the primary and secondary
/// sizes from the MPF table, build the XMP packet with the reported primary
/// size, re-encode and measure, correct the packet once if the guess was
/// off, then rewrite the MPF table with the measured primary length and the
/// gain-map offset relative to the TIFF base found in the encoded stream.
pub open spec fn ultra_result(
    segs: Seq<JpegSegment>,
    tail: Seq<u8>,
    ex: Option<Seq<u8>>,
    ts: u64,
    vlen: usize,
) -> Result<(Seq<u8>, MotionMeta), MotionError> {
    let mi = mpf_seg_idx(segs, 0);
    if mi >= segs.len() {
        Err(MotionError::MpfSegmentMissing)
    } else {
        match mpf_parse(segs[mi].contents@) {
            Err(e) => Err(MotionError::Mpf(e)),
            Ok((ps, ss2)) => {
                let sec = ss2 as usize;
                let body0 = crate::xmp::motion_xmp_bytes(
                    ex,
                    meta_of(ps as usize, Some(sec), vlen, ts),
                );
                if body0.len() + xmp_prefix().len() + 2 > 0xFFFF {
                    Err(MotionError::XmpTooLarge)
                } else {
                    let e1 = upserted_doc_bytes(segs, tail, body0);
                    if e1.len() < sec {
                        Err(MotionError::PrimaryLenUnderflow)
                    } else {
                        let pl1 = (e1.len() - sec) as usize;
                        let body_f = if pl1 == ps as usize {
                            body0
                        } else {
                            crate::xmp::motion_xmp_bytes(ex, meta_of(pl1, Some(sec), vlen, ts))
                        };
                        if body_f.len() + xmp_prefix().len() + 2 > 0xFFFF {
                            Err(MotionError::XmpTooLarge)
                        } else {
                            let e2 = if pl1 == ps as usize {
                                e1
                            } else {
                                upserted_doc_bytes(segs, tail, body_f)
                            };
                            if e2.len() < sec {
                                Err(MotionError::PrimaryLenUnderflow)
                            } else {
                                let plen = (e2.len() - sec) as usize;
                                let sp = first_sig_pos(e2, 0);
                                if sp >= e2.len() {
                                    Err(MotionError::MpfPayloadStartMissing)
                                } else if plen < sp + 4 {
                                    Err(MotionError::GainmapOffsetUnderflow)
                                } else {
                                    let goff = (plen - (sp + 4)) as usize;
                                    if plen > u32::MAX || sec > u32::MAX || goff > u32::MAX {
                                        Err(MotionError::Mpf(MpfError::ValueTooLarge))
                                    } else {
                                        let payload = crate::mpf::mpf_payload_bytes(
                                            plen as u32,
                                            sec as u32,
                                            goff as u32,
                                        );
                                        let fin = ultra_final_bytes(segs, tail, body_f, mi, payload);
                                        if fin.len() < sec {
                                            Err(MotionError::PrimaryLenUnderflow)
                                        } else {
                                            Ok(
                                                (
                                                    fin,
                                                    meta_of(
                                                        (fin.len() - sec) as usize,
                                                        Some(sec),
                                                        vlen,
                                                        ts,
                                                    ),
                                                ),
                                            )
                                        }
                                    }
                                }
                            }
                        }
                    }
                }
            },
        }
    }
}

/// The first MPF segment is at or past `i`, within bounds, and is an MPF
/// segment when one exists.
proof fn lemma_mpf_idx_props(ss: Seq<JpegSegment>, i: int)
    requires
        0 <= i <= ss.len(),
    ensures
        i <= mpf_seg_idx(ss, i) <= ss.len(),
        mpf_seg_idx(ss, i) < ss.len() ==> is_mpf_seg(ss[mpf_seg_idx(ss, i)]),
    decreases ss.len() - i,
{
    if i < ss.len() && !is_mpf_seg(ss[i]) {
        lemma_mpf_idx_props(ss, i + 1);
    }
}

/// The metadata insertion point lies within the run.
proof fn lemma_insert_pos_bounds(ss: Seq<JpegSegment>, i: int)
    requires
        0 <= i <= ss.len(),
    ensures
        i <= xmp_insert_pos(ss, i) <= ss.len(),
    decreases ss.len() - i,
{
    if i < ss.len() && (ss[i].marker == MARKER_APP0 || ss[i].marker == MARKER_APP1) {
        lemma_insert_pos_bounds(ss, i + 1);
    }
}

/// The metadata insertion point is never past a segment that is neither
/// APP0 nor APP1.
proof fn lemma_insert_pos_le(ss: Seq<JpegSegment>, i: int, j: int)
    requires
        0 <= i <= j < ss.len(),
        ss[j].marker != MARKER_APP0,
        ss[j].marker != MARKER_APP1,
    ensures
        xmp_insert_pos(ss, i) <= j,
    decreases j - i,
{
    if ss[i].marker == MARKER_APP0 || ss[i].marker == MARKER_APP1 {
        lemma_insert_pos_le(ss, i + 1, j);
    }
}

/// The encoded bytes of a document whose segments are `segs` with the XMP
/// segment `x` inserted at the metadata insertion point and the MPF segment
/// (originally at `mi`) replaced by `m`.
#[verifier::rlimit(100)]
proof fn lemma_ultra_final_encode(
    segs: Seq<JpegSegment>,
    tail: Seq<u8>,
    p: int,
    x: JpegSegment,
    mi: int,
    m: JpegSegment,
    body: Seq<u8>,
    payload: Seq<u8>,
)
    requires
        p == xmp_insert_pos(segs, 0),
        0 <= p <= mi < segs.len(),
        x.marker == MARKER_APP1,
        x.contents@ == xmp_prefix() + body,
        m.marker == MARKER_APP2,
        m.contents@ == payload,
    ensures
        seq![0xFFu8, 0xD8u8] + crate::jpeg::segs_bytes(segs.insert(p, x).update(mi + 1, m)) + tail
            == ultra_final_bytes(segs, tail, body, mi, payload),
{
    reveal(ultra_final_bytes);
    let a = segs.insert(p, x).update(mi + 1, m);
    assert(a =~= segs.take(p) + (seq![x] + (segs.subrange(p, mi) + (seq![m] + segs.skip(mi + 1)))));
    crate::jpeg::lemma_segs_bytes_concat(
        segs.take(p),
        seq![x] + (segs.subrange(p, mi) + (seq![m] + segs.skip(mi + 1))),
    );
    crate::jpeg::lemma_segs_bytes_concat(
        seq![x],
        segs.subrange(p, mi) + (seq![m] + segs.skip(mi + 1)),
    );
    crate::jpeg::lemma_segs_bytes_concat(segs.subrange(p, mi), seq![m] + segs.skip(mi + 1));
    crate::jpeg::lemma_segs_bytes_concat(seq![m], segs.skip(mi + 1));
    assert(seq![x][0] == x);
    assert(seq![x].drop_first() =~= Seq::<JpegSegment>::empty());
    assert(seq![m][0] == m);
    assert(seq![m].drop_first() =~= Seq::<JpegSegment>::empty());
    assert(crate::jpeg::segs_bytes(Seq::<JpegSegment>::empty()) =~= Seq::<u8>::empty());
    assert(crate::jpeg::segs_bytes(seq![x]) =~= crate::jpeg::seg_bytes(x));
    assert(crate::jpeg::segs_bytes(seq![m]) =~= crate::jpeg::seg_bytes(m));
    assert(crate::jpeg::seg_bytes(x) =~= raw_seg_bytes(MARKER_APP1, xmp_prefix() + body));
    assert(crate::jpeg::seg_bytes(m) =~= raw_seg_bytes(MARKER_APP2, payload));
    assert(seq![0xFFu8, 0xD8u8] + crate::jpeg::segs_bytes(a) + tail =~= ultra_final_bytes(
        segs,
        tail,
        body,
        mi,
        payload,
    ));
}

/// Assemble the primary JPEG of an UltraHDR Motion Photo, rewriting its MPF
/// table so that the secondary (gain map) offset matches the final layout.
#[verifier::rlimit(100)]
pub fn build_ultrahdr_motion(
    video_bytes: &[u8],
    base_jpeg: JpegDocument,
    existing_xmp: Option<&[u8]>,
    presentation_timestamp_us: u64,
) -> (r: Result<(Vec<u8>, MotionMeta), MotionError>)
    requires
        crate::jpeg::doc_wf(base_jpeg),
    ensures
        ultra_result(
            base_jpeg.segments@,
            base_jpeg.tail@,
            match existing_xmp {
                Some(e) => Some(e@),
                None => None,
            },
            presentation_timestamp_us,
            video_bytes@.len() as usize,
        ) == (match r {
            Ok((b, m)) => Ok::<(Seq<u8>, MotionMeta), MotionError>((b@, m)),
            Err(e) => Err(e),
        }),
        r matches Ok((b, m)) ==> m.video_len == video_bytes@.len()
            && m.presentation_timestamp_us == presentation_timestamp_us && (m.gainmap_len matches
        Some(g) && m.primary_len + g == b@.len()),
{
    let ghost segs0 = base_jpeg.segments@;
    let ghost tail0 = base_jpeg.tail@;
    let ghost exv: Option<Seq<u8>> = match existing_xmp {
        Some(e) => Some(e@),
        None => None,
    };
    let ghost ts = presentation_timestamp_us;
    let vlen = video_bytes.len();
    let pre_len = "http://ns.adobe.com/xap/1.0/\u{0}".as_bytes().len();
    let info = match find_mpf_segment(&base_jpeg) {
        Ok(info) => info,
        Err(e) => {
            return Err(e);
        },
    };
    let mi = info.segment_index;
    let sec = info.secondary_size;
    proof {
        lemma_mpf_idx_props(segs0, 0);
    }
    let mut g: usize = info.primary_size;
    let meta0 = MotionMeta {
        primary_len: g,
        gainmap_len: Some(sec),
        video_len: vlen,
        presentation_timestamp_us,
    };
    let body = crate::xmp::build_motion_xmp(existing_xmp, &meta0);
    proof {
        assert(body@ == crate::xmp::motion_xmp_bytes(exv, meta_of(g, Some(sec), vlen, ts)));
    }
    if body.len() > 0xFFFF || pre_len > 0xFFFF || body.len() + pre_len + 2 > 0xFFFF {
        return Err(MotionError::XmpTooLarge);
    }
    let mut doc = base_jpeg;
    let p = upsert_xmp(&mut doc, body.as_slice());
    proof {
        lemma_doc_wf_insert(segs0, p as int, doc.segments@[p as int]);
    }
    let mut encoded = doc.encode();
    proof {
        lemma_upserted_encode(segs0, tail0, p as int, doc.segments@[p as int], body@);
        assert(encoded@ == upserted_doc_bytes(segs0, tail0, body@));
    }
    if encoded.len() < sec {
        return Err(MotionError::PrimaryLenUnderflow);
    }
    let mut plen = encoded.len() - sec;
    let ghost mut body_f: Seq<u8> = body@;
    if plen != g {
        g = plen;
        let meta1 = MotionMeta {
            primary_len: g,
            gainmap_len: Some(sec),
            video_len: vlen,
            presentation_timestamp_us,
        };
        let body2 = crate::xmp::build_motion_xmp(existing_xmp, &meta1);
        proof {
            assert(body2@ == crate::xmp::motion_xmp_bytes(exv, meta_of(g, Some(sec), vlen, ts)));
        }
        if body2.len() > 0xFFFF || pre_len > 0xFFFF || body2.len() + pre_len + 2 > 0xFFFF {
            return Err(MotionError::XmpTooLarge);
        }
        let contents = make_xmp_contents(body2.as_slice());
        replace_segment(&mut doc, p, MARKER_APP1, contents);
        proof {
            assert(doc.segments@ =~= segs0.insert(p as int, doc.segments@[p as int]));
            lemma_doc_wf_insert(segs0, p as int, doc.segments@[p as int]);
        }
        encoded = doc.encode();
        proof {
            lemma_upserted_encode(segs0, tail0, p as int, doc.segments@[p as int], body2@);
            assert(encoded@ == upserted_doc_bytes(segs0, tail0, body2@));
        }
        if encoded.len() < sec {
            return Err(MotionError::PrimaryLenUnderflow);
        }
        plen = encoded.len() - sec;
        proof {
            body_f = body2@;
        }
    }
    let sp = match find_mpf_offset_bytes(encoded.as_slice()) {
        Some(sp) => sp,
        None => {
            return Err(MotionError::MpfPayloadStartMissing);
        },
    };
    let tiff_base = sp + 4;
    if plen < tiff_base {
        return Err(MotionError::GainmapOffsetUnderflow);
    }
    let goff = plen - tiff_base;
    let payload = match crate::mpf::build_mpf_payload(plen, sec, goff) {
        Ok(v) => v,
        Err(e) => {
            return Err(MotionError::Mpf(e));
        },
    };
    proof {
        assert(is_mpf_seg(segs0[mi as int]));
        lemma_insert_pos_le(segs0, 0, mi as int);
        assert(payload@.len() == 86);
    }
    let ghost before_mpf = doc.segments@;
    let dlen = doc.segments.len();
    proof {
        assert(mi < dlen);
    }
    replace_segment(&mut doc, mi + 1, MARKER_APP2, payload);
    proof {
        lemma_ultra_final_encode(
            segs0,
            tail0,
            p as int,
            before_mpf[p as int],
            mi as int,
            doc.segments@[mi + 1],
            body_f,
            doc.segments@[mi + 1].contents@,
        );
        assert forall|k2: int| 0 <= k2 < doc.segments@.len() implies crate::jpeg::seg_wf(
            #[trigger] doc.segments@[k2],
        ) by {
            if k2 != mi + 1 {
                assert(doc.segments@[k2] == before_mpf[k2]);
            }
        }
    }
    let fin = doc.encode();
    if fin.len() < sec {
        return Err(MotionError::PrimaryLenUnderflow);
    }
    let meta = MotionMeta {
        primary_len: fin.len() - sec,
        gainmap_len: Some(sec),
        video_len: vlen,
        presentation_timestamp_us,
    };
    Ok((fin, meta))
}


/// Every segment kept by [`strip_xmp`] is well formed when the originals
/// are.
proof fn lemma_strip_xmp_wf(ss: Seq<JpegSegment>)
    requires
        forall|k: int| 0 <= k < ss.len() ==> crate::jpeg::seg_wf(#[trigger] ss[k]),
    ensures
        forall|k: int|
            0 <= k < strip_xmp(ss).len() ==> crate::jpeg::seg_wf(#[trigger] strip_xmp(ss)[k]),
    decreases ss.len(),
{
    if ss.len() == 0 {
        assert(strip_xmp(ss).len() == 0);
    }
    if ss.len() > 0 {
        assert forall|k: int|
            0 <= k < ss.drop_first().len() implies crate::jpeg::seg_wf(
            #[trigger] ss.drop_first()[k],
        ) by {
            assert(ss.drop_first()[k] == ss[k + 1]);
        }
        lemma_strip_xmp_wf(ss.drop_first());
        if is_xmp_seg(ss[0]) {
            assert(strip_xmp(ss) == strip_xmp(ss.drop_first()));
        }
        if !is_xmp_seg(ss[0]) {
            assert forall|k: int|
                0 <= k < strip_xmp(ss).len() implies crate::jpeg::seg_wf(
                #[trigger] strip_xmp(ss)[k],
            ) by {
                if k == 0 {
                    assert(strip_xmp(ss)[0] == ss[0]);
                } else {
                    assert(strip_xmp(ss)[k] == strip_xmp(ss.drop_first())[k - 1]);
                }
            }
        }
    }
}

/// What assembling the primary image of a Motion Photo yields for a parsed
/// photo with segments `segs` and tail `tail`: the prior XMP packet is
/// removed and remembered, and the gain-map-aware or plain rewrite runs on
/// the stripped document.
pub open spec fn assemble_spec_of(
    segs: Seq<JpegSegment>,
    tail: Seq<u8>,
    gainmap_present: bool,
    ts: u64,
    vlen: usize,
) -> Result<(Seq<u8>, MotionMeta), MotionError> {
    let stripped = strip_xmp(segs);
    let ex = first_xmp_body(segs);
    if gainmap_present {
        ultra_result(stripped, tail, ex, ts, vlen)
    } else {
        let g0 = (seq![0xFFu8, 0xD8u8] + crate::jpeg::segs_bytes(stripped) + tail).len() as usize;
        match plain_rounds(stripped, tail, ex, ts, vlen, g0, 4) {
            Some(e) => Ok((e, meta_of(e.len() as usize, None, vlen, ts))),
            None => Err(MotionError::XmpTooLarge),
        }
    }
}

/// Assemble a complete Motion Photo: parse the still JPEG, replace its XMP
/// packet, patch the MPF table when a gain map is present, and append the
/// video clip with no separator. Returns the whole output file and the
/// lengths that were written into the metadata.
#[verifier::rlimit(100)]
pub fn assemble_motion_photo(
    photo_bytes: &[u8],
    video_bytes: &[u8],
    gainmap_present: bool,
    presentation_timestamp_us: u64,
) -> (r: Result<(Vec<u8>, MotionMeta), MotionError>)
    ensures
        match r {
            Ok((out, meta)) => crate::jpeg::valid_jpeg(photo_bytes@) && meta.video_len
                == video_bytes@.len() && meta.presentation_timestamp_us
                == presentation_timestamp_us && (gainmap_present <==> meta.gainmap_len is Some)
                && out@.len() >= video_bytes@.len() && out@.subrange(
                out@.len() - video_bytes@.len(),
                out@.len() as int,
            ) == video_bytes@ && meta.primary_len + (match meta.gainmap_len {
                Some(g) => g,
                None => 0,
            }) + video_bytes@.len() == out@.len() && exists|segs: Seq<JpegSegment>, tail: Seq<u8>|
                crate::jpeg::doc_encodes_to(segs, tail, photo_bytes@)
                    && crate::jpeg::canonical_split(segs, tail) && #[trigger] assemble_spec_of(
                    segs,
                    tail,
                    gainmap_present,
                    presentation_timestamp_us,
                    video_bytes@.len() as usize,
                ) == Ok::<(Seq<u8>, MotionMeta), MotionError>(
                    (out@.subrange(0, out@.len() - video_bytes@.len()), meta),
                ),
            Err(MotionError::InvalidJpeg(_)) => !crate::jpeg::valid_jpeg(photo_bytes@),
            Err(e) => crate::jpeg::valid_jpeg(photo_bytes@) && exists|
                segs: Seq<JpegSegment>,
                tail: Seq<u8>,
            |
                crate::jpeg::doc_encodes_to(segs, tail, photo_bytes@)
                    && crate::jpeg::canonical_split(segs, tail) && #[trigger] assemble_spec_of(
                    segs,
                    tail,
                    gainmap_present,
                    presentation_timestamp_us,
                    video_bytes@.len() as usize,
                ) == Err::<(Seq<u8>, MotionMeta), MotionError>(e),
        },
{
    let mut doc = match crate::jpeg::JpegDocument::parse(photo_bytes) {
        Ok(d) => d,
        Err(je) => {
            return Err(MotionError::InvalidJpeg(je));
        },
    };
    let ghost segs = doc.segments@;
    let ghost tail0 = doc.tail@;
    let ghost vlen_g = video_bytes@.len() as usize;
    let existing = take_existing_xmp(&mut doc);
    proof {
        lemma_strip_xmp_wf(segs);
    }
    let built = match &existing {
        Some(v) => {
            if gainmap_present {
                build_ultrahdr_motion(
                    video_bytes,
                    doc,
                    Some(v.as_slice()),
                    presentation_timestamp_us,
                )
            } else {
                build_plain_motion(
                    video_bytes,
                    doc,
                    Some(v.as_slice()),
                    presentation_timestamp_us,
                )
            }
        },
        None => {
            if gainmap_present {
                build_ultrahdr_motion(video_bytes, doc, None, presentation_timestamp_us)
            } else {
                build_plain_motion(video_bytes, doc, None, presentation_timestamp_us)
            }
        },
    };
    match built {
        Ok((primary, meta)) => {
            let mut out = primary;
            let ghost prim = out@;
            out.extend_from_slice(video_bytes);
            proof {
                assert(out@.subrange(out@.len() - video_bytes@.len(), out@.len() as int)
                    =~= video_bytes@);
                assert(out@.subrange(0, out@.len() - video_bytes@.len()) =~= prim);
                assert(crate::jpeg::doc_encodes_to(segs, tail0, photo_bytes@));
                assert(crate::jpeg::canonical_split(segs, tail0));
                assert(assemble_spec_of(
                    segs,
                    tail0,
                    gainmap_present,
                    presentation_timestamp_us,
                    vlen_g,
                ) == Ok::<(Seq<u8>, MotionMeta), MotionError>((prim, meta)));
            }
            Ok((out, meta))
        },
        Err(e) => {
            proof {
                assert(crate::jpeg::doc_encodes_to(segs, tail0, photo_bytes@));
                assert(crate::jpeg::canonical_split(segs, tail0));
                assert(assemble_spec_of(
                    segs,
                    tail0,
                    gainmap_present,
                    presentation_timestamp_us,
                    vlen_g,
                ) == Err::<(Seq<u8>, MotionMeta), MotionError>(e));
            }
            Err(e)
        },
    }
}


/// A resolved photo/video input pair.
#[derive(Debug, Clone)]
pub struct MotionInputPair {
    /// Path of the still JPEG.
    pub photo: String,
    /// Path of the MP4 clip.
    pub video: String,
}

/// Why motion input resolution failed.
#[derive(Debug, Clone, Copy, PartialEq, Eq, Structural)]
pub enum MotionResolveError {
    /// Only one of the two role flags was given.
    ProvideBothRoles,
    /// Role flags and positional inputs were mixed.
    FlagsWithPositionals,
    /// Not exactly two positional inputs for auto-detection.
    ProvideTwoInputs,
    /// Both inputs look like JPEGs.
    BothJpeg,
    /// Both inputs look like MP4s.
    BothMp4,
    /// A file is neither a JPEG nor an MP4 by extension or signature.
    UnrecognizedMedia,
}

/// The description text of each motion resolution failure.
#[verifier::opaque]
pub open spec fn motion_resolve_error_text(e: MotionResolveError) -> Seq<char> {
    match e {
        MotionResolveError::ProvideBothRoles => "Provide both --photo and --video together (or omit both to auto-detect)"@,
        MotionResolveError::FlagsWithPositionals => "Provide --photo/--video without positional inputs, or two positional inputs without flags"@,
        MotionResolveError::ProvideTwoInputs => "Provide --photo and --video, or two positional inputs for auto-detection"@,
        MotionResolveError::BothJpeg => "Both inputs look like JPEGs; please specify --video for the MP4 explicitly"@,
        MotionResolveError::BothMp4 => "Both inputs look like MP4s; please specify --photo for the JPEG explicitly"@,
        MotionResolveError::UnrecognizedMedia => "Unrecognized media type"@,
    }
}

impl MotionResolveError {
    /// A short description of the failure, with the corrective suggestion.
    pub fn message(&self) -> (r: &'static str)
        ensures
            r@ == motion_resolve_error_text(*self),
    {
        proof {
            reveal(motion_resolve_error_text);
        }
        match self {
            MotionResolveError::ProvideBothRoles => "Provide both --photo and --video together (or omit both to auto-detect)",
            MotionResolveError::FlagsWithPositionals => "Provide --photo/--video without positional inputs, or two positional inputs without flags",
            MotionResolveError::ProvideTwoInputs => "Provide --photo and --video, or two positional inputs for auto-detection",
            MotionResolveError::BothJpeg => "Both inputs look like JPEGs; please specify --video for the MP4 explicitly",
            MotionResolveError::BothMp4 => "Both inputs look like MP4s; please specify --photo for the JPEG explicitly",
            MotionResolveError::UnrecognizedMedia => "Unrecognized media type",
        }
    }
}

/// The next step motion input resolution asks of its driver.
#[derive(Debug)]
pub enum MotionPlan {
    /// Both roles were given explicitly: the pair is final.
    Explicit(MotionInputPair),
    /// Two positional inputs: classify each by extension or signature.
    Detect(String, String),
}

/// Decide how to resolve the motion inputs from the argument record alone.
pub fn resolve_inputs(args: &crate::cli::MotionArgs) -> (r: Result<MotionPlan, MotionResolveError>)
    ensures
        match r {
            Ok(MotionPlan::Explicit(p)) => (args.photo matches Some(ph) && p.photo@ == ph@) && (
            args.video matches Some(v) && p.video@ == v@) && args.inputs@.len() == 0,
            Ok(MotionPlan::Detect(a, b)) => args.photo is None && args.video is None
                && args.inputs@.len() == 2 && a@ == args.inputs@[0]@ && b@ == args.inputs@[1]@,
            Err(MotionResolveError::ProvideBothRoles) => (args.photo is Some || args.video is Some)
                && !(args.photo is Some && args.video is Some),
            Err(MotionResolveError::FlagsWithPositionals) => args.photo is Some && args.video
                is Some && args.inputs@.len() != 0,
            Err(MotionResolveError::ProvideTwoInputs) => args.photo is None && args.video is None
                && args.inputs@.len() != 2,
            Err(_) => false,
        },
{
    if args.photo.is_some() || args.video.is_some() {
        match (&args.photo, &args.video) {
            (Some(ph), Some(v)) => {
                if args.inputs.len() != 0 {
                    return Err(MotionResolveError::FlagsWithPositionals);
                }
                return Ok(
                    MotionPlan::Explicit(MotionInputPair { photo: ph.clone(), video: v.clone() }),
                );
            },
            _ => {
                return Err(MotionResolveError::ProvideBothRoles);
            },
        }
    }
    if args.inputs.len() != 2 {
        return Err(MotionResolveError::ProvideTwoInputs);
    }
    Ok(MotionPlan::Detect(args.inputs[0].clone(), args.inputs[1].clone()))
}

/// The kind of media file a motion input holds.
#[derive(Debug, Clone, Copy, PartialEq, Eq, Structural)]
pub enum MediaKind {
    /// A still JPEG.
    Jpeg,
    /// An MP4/MOV clip.
    Mp4,
}

/// A lower-cased extension that names a JPEG.
pub open spec fn is_jpeg_ext(e: Seq<u8>) -> bool {
    e == seq![0x6Au8, 0x70u8, 0x67u8] || e == seq![0x6Au8, 0x70u8, 0x65u8, 0x67u8]
}

/// A lower-cased extension that names an MP4/MOV clip.
pub open spec fn is_mp4_ext(e: Seq<u8>) -> bool {
    e == seq![0x6Du8, 0x70u8, 0x34u8] || e == seq![0x6Du8, 0x34u8, 0x76u8] || e == seq![0x6Du8,
        0x6Fu8, 0x76u8] || e == seq![0x71u8, 0x74u8]
}

/// The media kind decided from an optional file extension and the first
/// bytes of the file: a recognized extension wins; otherwise the JPEG SOI
/// signature or the MP4 `ftyp` box decides.
pub open spec fn media_kind_spec(ext: Option<Seq<u8>>, header: Seq<u8>) -> Option<MediaKind> {
    let by_ext: Option<MediaKind> = match ext {
        Some(e) => if is_jpeg_ext(crate::binutil::lowered_of(e)) {
            Some(MediaKind::Jpeg)
        } else if is_mp4_ext(crate::binutil::lowered_of(e)) {
            Some(MediaKind::Mp4)
        } else {
            None
        },
        None => None,
    };
    match by_ext {
        Some(k) => Some(k),
        None => if header.len() >= 3 && header[0] == 0xFF && header[1] == 0xD8 && header[2]
            == 0xFF {
            Some(MediaKind::Jpeg)
        } else if header.len() >= 8 && header.subrange(4, 8) == seq![0x66u8, 0x74u8, 0x79u8,
            0x70u8] {
            Some(MediaKind::Mp4)
        } else {
            None
        },
    }
}

/// Classify one motion input from its extension and leading bytes.
pub fn detect_media_kind(ext: Option<&[u8]>, header: &[u8]) -> (r: Result<
    MediaKind,
    MotionResolveError,
>)
    ensures
        ({
            let exv = match ext {
                Some(e) => Some(e@),
                None => None,
            };
            match r {
                Ok(k) => media_kind_spec(exv, header@) == Some(k),
                Err(MotionResolveError::UnrecognizedMedia) => media_kind_spec(exv, header@)
                    is None,
                Err(_) => false,
            }
        }),
{
    match ext {
        Some(e) => {
            let lower = crate::binutil::to_ascii_lower(e);
            let jpg: [u8; 3] = [0x6A, 0x70, 0x67];
            let jpeg: [u8; 4] = [0x6A, 0x70, 0x65, 0x67];
            let mp4: [u8; 3] = [0x6D, 0x70, 0x34];
            let m4v: [u8; 3] = [0x6D, 0x34, 0x76];
            let mov: [u8; 3] = [0x6D, 0x6F, 0x76];
            let qt: [u8; 2] = [0x71, 0x74];
            proof {
                assert(jpg@ =~= seq![0x6Au8, 0x70u8, 0x67u8]);
                assert(jpeg@ =~= seq![0x6Au8, 0x70u8, 0x65u8, 0x67u8]);
                assert(mp4@ =~= seq![0x6Du8, 0x70u8, 0x34u8]);
                assert(m4v@ =~= seq![0x6Du8, 0x34u8, 0x76u8]);
                assert(mov@ =~= seq![0x6Du8, 0x6Fu8, 0x76u8]);
                assert(qt@ =~= seq![0x71u8, 0x74u8]);
            }
            if crate::binutil::bytes_eq(lower.as_slice(), jpg.as_slice())
                || crate::binutil::bytes_eq(lower.as_slice(), jpeg.as_slice()) {
                return Ok(MediaKind::Jpeg);
            }
            if crate::binutil::bytes_eq(lower.as_slice(), mp4.as_slice())
                || crate::binutil::bytes_eq(lower.as_slice(), m4v.as_slice())
                || crate::binutil::bytes_eq(lower.as_slice(), mov.as_slice())
                || crate::binutil::bytes_eq(lower.as_slice(), qt.as_slice()) {
                return Ok(MediaKind::Mp4);
            }
        },
        None => (),
    }
    if header.len() >= 3 && header[0] == 0xFF && header[1] == 0xD8 && header[2] == 0xFF {
        return Ok(MediaKind::Jpeg);
    }
    if header.len() >= 8 {
        let ftyp: [u8; 4] = [0x66, 0x74, 0x79, 0x70];
        if crate::binutil::slices_eq_at(header, ftyp.as_slice(), 4) {
            proof {
                assert(header@.subrange(4, 8) =~= seq![0x66u8, 0x74u8, 0x79u8, 0x70u8]);
            }
            return Ok(MediaKind::Mp4);
        }
        proof {
            assert(ftyp@ =~= seq![0x66u8, 0x74u8, 0x79u8, 0x70u8]);
        }
    }
    Err(MotionResolveError::UnrecognizedMedia)
}

/// Assign photo and video roles from the two media kinds; two files of the
/// same kind cannot be assigned and ask for explicit flags.
pub fn auto_detect_motion_pair(a: &str, b: &str, a_kind: MediaKind, b_kind: MediaKind) -> (r:
    Result<MotionInputPair, MotionResolveError>)
    ensures
        match r {
            Ok(p) => (a_kind == MediaKind::Jpeg && b_kind == MediaKind::Mp4 && p.photo@ == a@
                && p.video@ == b@) || (a_kind == MediaKind::Mp4 && b_kind == MediaKind::Jpeg
                && p.photo@ == b@ && p.video@ == a@),
            Err(MotionResolveError::BothJpeg) => a_kind == MediaKind::Jpeg && b_kind
                == MediaKind::Jpeg,
            Err(MotionResolveError::BothMp4) => a_kind == MediaKind::Mp4 && b_kind
                == MediaKind::Mp4,
            Err(_) => false,
        },
{
    match (a_kind, b_kind) {
        (MediaKind::Jpeg, MediaKind::Mp4) => Ok(
            MotionInputPair { photo: a.to_owned(), video: b.to_owned() },
        ),
        (MediaKind::Mp4, MediaKind::Jpeg) => Ok(
            MotionInputPair { photo: b.to_owned(), video: a.to_owned() },
        ),
        (MediaKind::Jpeg, MediaKind::Jpeg) => Err(MotionResolveError::BothJpeg),
        (MediaKind::Mp4, MediaKind::Mp4) => Err(MotionResolveError::BothMp4),
    }
}



/// Swapping the standard-layout MPF table for a fresh 86-byte payload keeps
/// every byte position: the pre-swap and post-swap streams share a common
/// prefix that ends with the segment header, then carry the old and the new
/// table, then share the rest.
#[verifier::rlimit(100)]
proof fn lemma_ultra_prefix_shared(
    segs: Seq<JpegSegment>,
    tail: Seq<u8>,
    body: Seq<u8>,
    mi: int,
    payload: Seq<u8>,
)
    requires
        0 <= mi < segs.len(),
        is_mpf_seg(segs[mi]),
        segs[mi].contents@.len() == 86,
        payload.len() == 86,
        0 <= xmp_insert_pos(segs, 0) <= mi,
    ensures
        ({
            let p = xmp_insert_pos(segs, 0);
            let pre = seq![0xFFu8, 0xD8u8] + crate::jpeg::segs_bytes(segs.take(p))
                + raw_seg_bytes(MARKER_APP1, xmp_prefix() + body) + crate::jpeg::segs_bytes(
                segs.subrange(p, mi),
            ) + seq![0xFFu8, MARKER_APP2] + crate::binutil::u16_be_bytes(88u16);
            let suf = crate::jpeg::segs_bytes(segs.skip(mi + 1)) + tail;
            &&& upserted_doc_bytes(segs, tail, body) == pre + segs[mi].contents@ + suf
            &&& ultra_final_bytes(segs, tail, body, mi, payload) == pre + payload + suf
        }),
{
    reveal(ultra_final_bytes);
    let p = xmp_insert_pos(segs, 0);
    let pre = seq![0xFFu8, 0xD8u8] + crate::jpeg::segs_bytes(segs.take(p)) + raw_seg_bytes(
        MARKER_APP1,
        xmp_prefix() + body,
    ) + crate::jpeg::segs_bytes(segs.subrange(p, mi)) + seq![0xFFu8, MARKER_APP2]
        + crate::binutil::u16_be_bytes(88u16);
    let suf = crate::jpeg::segs_bytes(segs.skip(mi + 1)) + tail;
    // Split the segment run after the insertion point at the table segment.
    assert(segs.skip(p) =~= segs.subrange(p, mi) + (seq![segs[mi]] + segs.skip(mi + 1)));
    crate::jpeg::lemma_segs_bytes_concat(
        segs.subrange(p, mi),
        seq![segs[mi]] + segs.skip(mi + 1),
    );
    crate::jpeg::lemma_segs_bytes_concat(seq![segs[mi]], segs.skip(mi + 1));
    assert(seq![segs[mi]][0] == segs[mi]);
    assert(seq![segs[mi]].drop_first() =~= Seq::<JpegSegment>::empty());
    assert(crate::jpeg::segs_bytes(Seq::<JpegSegment>::empty()) =~= Seq::<u8>::empty());
    assert(crate::jpeg::segs_bytes(seq![segs[mi]]) =~= crate::jpeg::seg_bytes(segs[mi]));
    // Both tables sit behind the same two-byte marker and length field.
    assert(crate::jpeg::seg_bytes(segs[mi]) =~= seq![0xFFu8, MARKER_APP2]
        + crate::binutil::u16_be_bytes(88u16) + segs[mi].contents@);
    assert(raw_seg_bytes(MARKER_APP2, payload) =~= seq![0xFFu8, MARKER_APP2]
        + crate::binutil::u16_be_bytes(88u16) + payload);
    assert(upserted_doc_bytes(segs, tail, body) =~= pre + segs[mi].contents@ + suf);
    assert(ultra_final_bytes(segs, tail, body, mi, payload) =~= pre + payload + suf);
}

/// Position facts about the first signature occurrence: it lies at or after
/// `i`, a found position really matches, and nothing before it matches.
proof fn lemma_first_sig_props(h: Seq<u8>, i: int)
    requires
        0 <= i <= h.len(),
    ensures
        i <= first_sig_pos(h, i) <= h.len(),
        first_sig_pos(h, i) == h.len() || (first_sig_pos(h, i) + 4 <= h.len() && h.subrange(
            first_sig_pos(h, i),
            first_sig_pos(h, i) + 4,
        ) == mpf_sig()),
        forall|j: int|
            i <= j < first_sig_pos(h, i) && j + 4 <= h.len() ==> h.subrange(j, #[trigger] (j + 4))
                != mpf_sig(),
    decreases h.len() - i,
{
    if i + 4 > h.len() {
    } else if h.subrange(i, i + 4) == mpf_sig() {
    } else {
        lemma_first_sig_props(h, i + 1);
    }
}

/// A position that matches the signature, with no earlier match, is the
/// first occurrence.
proof fn lemma_first_sig_is(h: Seq<u8>, i: int, s: int)
    requires
        0 <= i <= s,
        s + 4 <= h.len(),
        h.subrange(s, s + 4) == mpf_sig(),
        forall|j: int| i <= j < s ==> h.subrange(j, #[trigger] (j + 4)) != mpf_sig(),
    ensures
        first_sig_pos(h, i) == s,
    decreases s - i,
{
    if i < s {
        assert(h.subrange(i, i + 4) != mpf_sig());
        lemma_first_sig_is(h, i + 1, s);
    }
}

/// Two streams that agree on a prefix long enough to cover the first
/// signature occurrence of one of them share that first occurrence.
proof fn lemma_first_sig_agree(u: Seq<u8>, v: Seq<u8>, d: int)
    requires
        0 <= d <= u.len(),
        d <= v.len(),
        u.subrange(0, d) == v.subrange(0, d),
        first_sig_pos(u, 0) + 4 <= d,
    ensures
        first_sig_pos(v, 0) == first_sig_pos(u, 0),
{
    let sp = first_sig_pos(u, 0);
    lemma_first_sig_props(u, 0);
    assert(sp + 4 <= u.len() && u.subrange(sp, sp + 4) == mpf_sig());
    assert forall|k: int| 0 <= k < d implies u[k] == v[k] by {
        assert(u.subrange(0, d)[k] == u[k]);
        assert(v.subrange(0, d)[k] == v[k]);
    }
    assert(v.subrange(sp, sp + 4) =~= u.subrange(sp, sp + 4));
    assert forall|j: int| 0 <= j < sp implies v.subrange(j, #[trigger] (j + 4)) != mpf_sig() by {
        assert(v.subrange(j, j + 4) =~= u.subrange(j, j + 4));
        assert(u.subrange(j, j + 4) != mpf_sig());
    }
    lemma_first_sig_is(v, 0, sp);
}


/// The finished primary embeds a fresh MPF table for its own measurements:
/// somewhere in the bytes sits the payload built from the declared primary
/// length, the gain-map size, and a secondary offset of exactly the primary
/// length minus the TIFF base, the base being the first `MPF\0` occurrence
/// in these very bytes plus four.
pub open spec fn mpf_offsets_pinned(fin: Seq<u8>, meta: MotionMeta) -> bool {
    &&& meta.gainmap_len is Some
    &&& first_sig_pos(fin, 0) + 4 <= meta.primary_len
    &&& exists|c: int|
        #[trigger] crate::binutil::matches_at(
            fin,
            crate::mpf::mpf_payload_bytes(
                meta.primary_len as u32,
                meta.gainmap_len.unwrap() as u32,
                (meta.primary_len - (first_sig_pos(fin, 0) + 4)) as u32,
            ),
            c,
        )
}

/// The offset fixed point of the UltraHDR rewrite, over the final bytes:
/// when the source MPF table has the standard 86-byte layout, the finished
/// primary embeds a fresh table that declares the measured primary length
/// and a secondary offset of exactly that length minus the TIFF base, where
/// the TIFF base is the first `MPF\0` occurrence in the finished bytes plus
/// four. The source-layout premise keeps every byte position unchanged by
/// the table swap; a nonstandard source table shifts the suffix and the
/// stream then declares the pre-swap positions, as the rewrite measured
/// them.
#[verifier::rlimit(100)]
pub proof fn lemma_ultra_offset_fixed_point(
    segs: Seq<JpegSegment>,
    tail: Seq<u8>,
    ex: Option<Seq<u8>>,
    ts: u64,
    vlen: usize,
)
    requires
        ({
            let mi = mpf_seg_idx(segs, 0);
            mi < segs.len() ==> segs[mi].contents@.len() == 86
        }),
    ensures
        match ultra_result(segs, tail, ex, ts, vlen) {
            Ok((fin, meta)) => mpf_offsets_pinned(fin, meta),
            Err(_) => true,
        },
{
    let mi = mpf_seg_idx(segs, 0);
    if mi >= segs.len() {
        return ;
    }
    match crate::mpf::mpf_parse(segs[mi].contents@) {
        Err(_) => {},
        Ok((ps, ss2)) => {
            let sec = ss2 as usize;
            let body0 = crate::xmp::motion_xmp_bytes(ex, meta_of(ps as usize, Some(sec), vlen, ts));
            if body0.len() + xmp_prefix().len() + 2 > 0xFFFF {
                return ;
            }
            let e1 = upserted_doc_bytes(segs, tail, body0);
            if e1.len() < sec {
                return ;
            }
            let pl1 = (e1.len() - sec) as usize;
            let body_f = if pl1 == ps as usize {
                body0
            } else {
                crate::xmp::motion_xmp_bytes(ex, meta_of(pl1, Some(sec), vlen, ts))
            };
            if body_f.len() + xmp_prefix().len() + 2 > 0xFFFF {
                return ;
            }
            let e2 = if pl1 == ps as usize {
                e1
            } else {
                upserted_doc_bytes(segs, tail, body_f)
            };
            if e2.len() < sec {
                return ;
            }
            let plen = (e2.len() - sec) as usize;
            let sp2 = first_sig_pos(e2, 0);
            if sp2 >= e2.len() {
                return ;
            }
            if plen < sp2 + 4 {
                return ;
            }
            let goff = (plen - (sp2 + 4)) as usize;
            if plen > u32::MAX || sec > u32::MAX || goff > u32::MAX {
                return ;
            }
            let payload = crate::mpf::mpf_payload_bytes(plen as u32, sec as u32, goff as u32);
            let fin = ultra_final_bytes(segs, tail, body_f, mi, payload);
            if fin.len() < sec {
                return ;
            }
            // The finished stream and the pre-swap stream share everything
            // up to and including the signature that opens the table.
            lemma_mpf_idx_props(segs, 0);
            lemma_insert_pos_bounds(segs, 0);
            lemma_insert_pos_le(segs, 0, mi);
            crate::mpf::lemma_mpf_payload_shape(plen as u32, sec as u32, goff as u32);
            lemma_ultra_prefix_shared(segs, tail, body_f, mi, payload);
            let p = xmp_insert_pos(segs, 0);
            let pre = seq![0xFFu8, 0xD8u8] + crate::jpeg::segs_bytes(segs.take(p)) + raw_seg_bytes(
                MARKER_APP1,
                xmp_prefix() + body_f,
            ) + crate::jpeg::segs_bytes(segs.subrange(p, mi)) + seq![
                0xFFu8,
                MARKER_APP2,
            ] + crate::binutil::u16_be_bytes(88u16);
            let suf = crate::jpeg::segs_bytes(segs.skip(mi + 1)) + tail;
            assert(e2 == pre + segs[mi].contents@ + suf);
            assert(fin == pre + payload + suf);
            assert(fin.len() == e2.len());
            // The old table opens with the signature, so the first
            // occurrence lies no later than the table itself, inside the
            // shared prefix.
            let d = pre.len() as int + 4;
            assert(e2.subrange(pre.len() as int, d) =~= segs[mi].contents@.subrange(0, 4));
            assert(e2.subrange(pre.len() as int, d) == mpf_sig());
            lemma_first_sig_props(e2, 0);
            assert(sp2 <= pre.len()) by {
                if sp2 > pre.len() {
                    assert(e2.subrange(pre.len() as int, pre.len() as int + 4) != mpf_sig());
                }
            }
            assert(e2.subrange(0, d) =~= fin.subrange(0, d));
            lemma_first_sig_agree(e2, fin, d);
            assert(first_sig_pos(fin, 0) == sp2);
            let meta2 = meta_of((fin.len() - sec) as usize, Some(sec), vlen, ts);
            assert(meta2.primary_len == plen);
            assert(ultra_result(segs, tail, ex, ts, vlen) == Ok::<
                (Seq<u8>, MotionMeta),
                MotionError,
            >((fin, meta2)));
            assert(fin.subrange(pre.len() as int, pre.len() as int + 86) =~= payload);
            assert(crate::binutil::matches_at(fin, payload, pre.len() as int));
            assert((meta2.primary_len - (first_sig_pos(fin, 0) + 4)) as u32 == goff as u32);
            assert(meta2.gainmap_len.unwrap() == sec);
            assert(crate::binutil::matches_at(
                fin,
                crate::mpf::mpf_payload_bytes(
                    meta2.primary_len as u32,
                    meta2.gainmap_len.unwrap() as u32,
                    (meta2.primary_len - (first_sig_pos(fin, 0) + 4)) as u32,
                ),
                pre.len() as int,
            ));
            assert(mpf_offsets_pinned(fin, meta2));
        },
    }
}

} // verus!
