//! Ordered JPEG marker-segment model.
//!
//! A JPEG byte stream is SOI, a run of marker segments (each `FF`, a marker
//! byte, a big-endian length that counts itself, and the contents), and then
//! an opaque tail that starts at the first SOS or EOI marker and runs to the
//! end of the input (the entropy-coded scan). Re-encoding an unmodified
//! document reproduces the input byte for byte; that fidelity is what the
//! self-referential offset computation in the Motion Photo assembly relies
//! on.

use vstd::prelude::*;

use crate::binutil::{be16, read_u16_be, u16_be_bytes};

verus! {

/// Marker byte that opens a JPEG stream (paired with the `FF` prefix).
pub const MARKER_SOI: u8 = 0xD8;

/// Marker byte of the end-of-image marker.
pub const MARKER_EOI: u8 = 0xD9;

/// Marker byte of the start-of-scan segment; everything from here on is the
/// entropy-coded tail.
pub const MARKER_SOS: u8 = 0xDA;

/// Marker byte of the APP0 (JFIF) application segment.
pub const MARKER_APP0: u8 = 0xE0;

/// Marker byte of the APP1 (EXIF/XMP) application segment.
pub const MARKER_APP1: u8 = 0xE1;

/// Marker byte of the APP2 (ICC/MPF) application segment.
pub const MARKER_APP2: u8 = 0xE2;

/// One marker segment: the marker byte and its contents (the bytes after the
/// two-byte length field).
#[derive(Debug)]
pub struct JpegSegment {
    pub marker: u8,
    pub contents: Vec<u8>,
}

/// Parsed JPEG: the marker segments between SOI and the scan, and the opaque
/// tail from the first SOS or EOI marker to the end of the input.
#[derive(Debug)]
pub struct JpegDocument {
    pub segments: Vec<JpegSegment>,
    pub tail: Vec<u8>,
}

/// A segment short enough for its length field: contents plus the two length
/// bytes must fit in sixteen bits.
pub open spec fn seg_wf(s: JpegSegment) -> bool {
    s.contents@.len() + 2 <= 0xFFFF
}

/// Every segment of the document can be re-encoded.
pub open spec fn doc_wf(d: JpegDocument) -> bool {
    forall|k: int| 0 <= k < d.segments@.len() ==> seg_wf(#[trigger] d.segments@[k])
}

/// The encoded bytes of one segment.
pub open spec fn seg_bytes(s: JpegSegment) -> Seq<u8> {
    seq![0xFFu8, s.marker] + u16_be_bytes((s.contents@.len() + 2) as u16) + s.contents@
}

/// The encoded bytes of a run of segments.
pub open spec fn segs_bytes(ss: Seq<JpegSegment>) -> Seq<u8>
    decreases ss.len(),
{
    if ss.len() == 0 {
        Seq::empty()
    } else {
        seg_bytes(ss[0]) + segs_bytes(ss.drop_first())
    }
}

/// The full encoded byte stream of a document.
pub open spec fn doc_bytes(d: JpegDocument) -> Seq<u8> {
    seq![0xFFu8, 0xD8u8] + segs_bytes(d.segments@) + d.tail@
}

/// A segment run and tail whose encoding is exactly `b`.
pub open spec fn doc_encodes_to(segs: Seq<JpegSegment>, tail: Seq<u8>, b: Seq<u8>) -> bool {
    seq![0xFFu8, 0xD8u8] + segs_bytes(segs) + tail == b
}

/// The canonical segment/tail split, the one the parser produces: every
/// segment is re-encodable and carries a marker other than SOS and EOI, and
/// the tail begins with `FF` followed by SOS or EOI. Among all splits that
/// encode to the same bytes, exactly one is canonical
/// ([`lemma_canonical_split_unique`]).
pub open spec fn canonical_split(segs: Seq<JpegSegment>, tail: Seq<u8>) -> bool {
    (forall|k: int|
        0 <= k < segs.len() ==> seg_wf(#[trigger] segs[k]) && segs[k].marker != MARKER_SOS
            && segs[k].marker != MARKER_EOI) && tail.len() >= 2 && tail[0] == 0xFF && (tail[1]
        == MARKER_SOS || tail[1] == MARKER_EOI)
}

/// The segment run of `b` is well formed from position `i` up to the first
/// SOS or EOI marker, and such a marker is reached.
pub open spec fn valid_from(b: Seq<u8>, i: int) -> bool
    decreases b.len() - i when 0 <= i
{
    if i + 2 > b.len() {
        false
    } else if b[i] != 0xFF {
        false
    } else if b[i + 1] == MARKER_SOS || b[i + 1] == MARKER_EOI {
        true
    } else if i + 4 > b.len() {
        false
    } else {
        let l = be16(b[i + 2], b[i + 3]) as int;
        if l < 2 || i + 2 + l > b.len() {
            false
        } else {
            valid_from(b, i + 2 + l)
        }
    }
}

/// `b` is a JPEG stream this model accepts: SOI followed by a well-formed
/// segment run that reaches an SOS or EOI marker.
pub open spec fn valid_jpeg(b: Seq<u8>) -> bool {
    b.len() >= 2 && b[0] == 0xFF && b[1] == MARKER_SOI && valid_from(b, 2)
}

/// Why a byte stream was rejected by [`JpegDocument::parse`].
#[derive(Clone, Copy, Debug, PartialEq, Eq, Structural)]
pub enum JpegError {
    /// The stream does not begin with the two SOI bytes.
    MissingSoi,
    /// The stream ended before a segment or the scan was complete.
    Truncated,
    /// A segment did not begin with the `FF` marker prefix.
    BadMarkerPrefix,
    /// A segment length field was smaller than the length field itself.
    BadLength,
}

/// Appending one segment appends its encoded bytes.
pub proof fn lemma_segs_bytes_push(ss: Seq<JpegSegment>, s: JpegSegment)
    ensures
        segs_bytes(ss.push(s)) == segs_bytes(ss) + seg_bytes(s),
    decreases ss.len(),
{
    if ss.len() == 0 {
        assert(ss.push(s).drop_first() =~= ss);
        assert(segs_bytes(ss.push(s)) =~= segs_bytes(ss) + seg_bytes(s));
    } else {
        assert(ss.push(s).drop_first() =~= ss.drop_first().push(s));
        lemma_segs_bytes_push(ss.drop_first(), s);
        assert(segs_bytes(ss.push(s)) =~= segs_bytes(ss) + seg_bytes(s));
    }
}

/// Two canonical runs with the same encoded bytes agree segment for segment
/// and share the tail.
proof fn lemma_canonical_run_unique(
    s1: Seq<JpegSegment>,
    t1: Seq<u8>,
    s2: Seq<JpegSegment>,
    t2: Seq<u8>,
)
    requires
        canonical_split(s1, t1),
        canonical_split(s2, t2),
        segs_bytes(s1) + t1 == segs_bytes(s2) + t2,
    ensures
        s1.len() == s2.len(),
        forall|k: int|
            0 <= k < s1.len() ==> #[trigger] s1[k].marker == s2[k].marker && s1[k].contents@
                == s2[k].contents@,
        t1 == t2,
    decreases s1.len(),
{
    let u = segs_bytes(s1) + t1;
    if s1.len() == 0 && s2.len() == 0 {
        assert(segs_bytes(s1) =~= Seq::<u8>::empty());
        assert(segs_bytes(s2) =~= Seq::<u8>::empty());
        assert(t1 =~= t2);
    } else if s1.len() == 0 || s2.len() == 0 {
        // One side starts its tail where the other still has a segment: the
        // byte after the leading `FF` would have to be both a scan/end
        // marker and an ordinary one.
        if s1.len() == 0 {
            let sb = seg_bytes(s2[0]);
            assert(segs_bytes(s1) =~= Seq::<u8>::empty());
            assert(u =~= t1);
            assert(u[1] == t1[1]);
            assert(u =~= segs_bytes(s2) + t2);
            assert(segs_bytes(s2) =~= sb + segs_bytes(s2.drop_first()));
            assert(sb.len() >= 4);
            assert(sb[1] == s2[0].marker);
            assert(u[1] == s2[0].marker);
            assert(false);
        } else {
            let sb = seg_bytes(s1[0]);
            assert(u =~= segs_bytes(s1) + t1);
            assert(segs_bytes(s1) =~= sb + segs_bytes(s1.drop_first()));
            assert(sb.len() >= 4);
            assert(sb[1] == s1[0].marker);
            assert(u[1] == s1[0].marker);
            assert(segs_bytes(s2) =~= Seq::<u8>::empty());
            assert(segs_bytes(s2) + t2 =~= t2);
            assert((segs_bytes(s2) + t2)[1] == t2[1]);
            assert(false);
        }
    } else {
        let a = s1[0];
        let c = s2[0];
        let sa = seg_bytes(a);
        let sc = seg_bytes(c);
        assert(segs_bytes(s1) =~= sa + segs_bytes(s1.drop_first()));
        assert(segs_bytes(s2) =~= sc + segs_bytes(s2.drop_first()));
        assert(seg_wf(a) && seg_wf(c));
        // The marker bytes coincide, and so do the two length-field bytes,
        // which pin the content lengths.
        assert(u[1] == sa[1] && sa[1] == a.marker);
        assert(u[1] == sc[1] && sc[1] == c.marker);
        assert(u[2] == u16_be_bytes((a.contents@.len() + 2) as u16)[0] && u[3] == u16_be_bytes(
            (a.contents@.len() + 2) as u16,
        )[1]);
        assert(u[2] == u16_be_bytes((c.contents@.len() + 2) as u16)[0] && u[3] == u16_be_bytes(
            (c.contents@.len() + 2) as u16,
        )[1]);
        crate::binutil::lemma_be16_roundtrip((a.contents@.len() + 2) as u16);
        crate::binutil::lemma_be16_roundtrip((c.contents@.len() + 2) as u16);
        assert(a.contents@.len() == c.contents@.len());
        assert forall|j: int| 0 <= j < a.contents@.len() implies a.contents@[j] == c.contents@[j] by {
            assert(u[4 + j] == sa[4 + j] && sa[4 + j] == a.contents@[j]);
            assert(u[4 + j] == sc[4 + j] && sc[4 + j] == c.contents@[j]);
        }
        assert(a.contents@ =~= c.contents@);
        // Strip the equal first segments and recurse on the rest.
        assert(segs_bytes(s1.drop_first()) + t1 =~= u.skip(sa.len() as int));
        assert(segs_bytes(s2.drop_first()) + t2 =~= u.skip(sa.len() as int));
        assert forall|k: int|
            0 <= k < s1.drop_first().len() implies seg_wf(#[trigger] s1.drop_first()[k])
            && s1.drop_first()[k].marker != MARKER_SOS && s1.drop_first()[k].marker
            != MARKER_EOI by {
            assert(s1.drop_first()[k] == s1[k + 1]);
        }
        assert forall|k: int|
            0 <= k < s2.drop_first().len() implies seg_wf(#[trigger] s2.drop_first()[k])
            && s2.drop_first()[k].marker != MARKER_SOS && s2.drop_first()[k].marker
            != MARKER_EOI by {
            assert(s2.drop_first()[k] == s2[k + 1]);
        }
        lemma_canonical_run_unique(s1.drop_first(), t1, s2.drop_first(), t2);
        assert forall|k: int|
            0 <= k < s1.len() implies #[trigger] s1[k].marker == s2[k].marker && s1[k].contents@
            == s2[k].contents@ by {
            if k > 0 {
                assert(s1.drop_first()[k - 1] == s1[k] && s2.drop_first()[k - 1] == s2[k]);
                assert(s1.drop_first()[k - 1].marker == s2.drop_first()[k - 1].marker
                    && s1.drop_first()[k - 1].contents@ == s2.drop_first()[k - 1].contents@);
            }
        }
    }
}

/// Among all segment/tail splits that encode to the same byte stream, the
/// canonical one is unique: two canonical splits of the same bytes agree
/// segment for segment and share the tail. This pins every contract that
/// names a canonical split of given bytes down to one split.
pub proof fn lemma_canonical_split_unique(
    s1: Seq<JpegSegment>,
    t1: Seq<u8>,
    s2: Seq<JpegSegment>,
    t2: Seq<u8>,
    b: Seq<u8>,
)
    requires
        canonical_split(s1, t1),
        canonical_split(s2, t2),
        doc_encodes_to(s1, t1, b),
        doc_encodes_to(s2, t2, b),
    ensures
        s1.len() == s2.len(),
        forall|k: int|
            0 <= k < s1.len() ==> #[trigger] s1[k].marker == s2[k].marker && s1[k].contents@
                == s2[k].contents@,
        t1 == t2,
{
    let u1 = segs_bytes(s1) + t1;
    let u2 = segs_bytes(s2) + t2;
    assert(u1 =~= b.skip(2));
    assert(u2 =~= b.skip(2));
    lemma_canonical_run_unique(s1, t1, s2, t2);
}

/// The encoded bytes of two runs in sequence are the two encodings in
/// sequence.
pub proof fn lemma_segs_bytes_concat(a: Seq<JpegSegment>, b: Seq<JpegSegment>)
    ensures
        segs_bytes(a + b) == segs_bytes(a) + segs_bytes(b),
    decreases a.len(),
{
    if a.len() == 0 {
        assert(a + b =~= b);
        assert(segs_bytes(a) + segs_bytes(b) =~= segs_bytes(b));
    } else {
        assert((a + b).drop_first() =~= a.drop_first() + b);
        lemma_segs_bytes_concat(a.drop_first(), b);
        assert((a + b)[0] == a[0]);
        assert(segs_bytes(a + b) =~= segs_bytes(a) + segs_bytes(b));
    }
}

impl JpegSegment {
    /// Build a segment from a marker and contents.
    pub fn new_with_contents(marker: u8, contents: Vec<u8>) -> (r: JpegSegment)
        ensures
            r.marker == marker,
            r.contents == contents,
    {
        JpegSegment { marker, contents }
    }
}

impl JpegDocument {
    /// Parse a JPEG byte stream into its segment sequence and tail.
    ///
    /// Succeeds exactly on the streams [`valid_jpeg`] accepts, and the parsed
    /// document is the canonical split of the input: it re-encodes to the
    /// input byte for byte, every segment carries an ordinary marker, and the
    /// tail starts at the first SOS or EOI marker. By
    /// [`lemma_canonical_split_unique`] no other split satisfies this, so the
    /// result is pinned down completely.
    pub fn parse(b: &[u8]) -> (r: Result<JpegDocument, JpegError>)
        ensures
            r is Ok <==> valid_jpeg(b@),
            r matches Ok(d) ==> doc_bytes(d) == b@ && doc_wf(d) && canonical_split(
                d.segments@,
                d.tail@,
            ),
    {
        if b.len() < 2 || b[0] != 0xFF || b[1] != MARKER_SOI {
            return Err(JpegError::MissingSoi);
        }
        let mut segments: Vec<JpegSegment> = Vec::new();
        let mut i: usize = 2;
        loop
            invariant
                2 <= i <= b@.len(),
                b@[0] == 0xFF && b@[1] == MARKER_SOI,
                valid_from(b@, 2) <==> valid_from(b@, i as int),
                segs_bytes(segments@) == b@.subrange(2, i as int),
                forall|k: int|
                    0 <= k < segments@.len() ==> seg_wf(#[trigger] segments@[k])
                        && segments@[k].marker != MARKER_SOS && segments@[k].marker != MARKER_EOI,
            decreases b@.len() - i,
        {
            if b.len() - i < 2 {
                return Err(JpegError::Truncated);
            }
            if b[i] != 0xFF {
                return Err(JpegError::BadMarkerPrefix);
            }
            let marker = b[i + 1];
            if marker == MARKER_SOS || marker == MARKER_EOI {
                let tail_slice = vstd::slice::slice_subrange(b, i, b.len());
                let tail = vstd::slice::slice_to_vec(tail_slice);
                let doc = JpegDocument { segments, tail };
                proof {
                    assert(doc_bytes(doc) =~= b@);
                }
                return Ok(doc);
            }
            if b.len() - i < 4 {
                return Err(JpegError::Truncated);
            }
            let l = read_u16_be(b, i + 2) as usize;
            if l < 2 {
                return Err(JpegError::BadLength);
            }
            if l - 2 > b.len() - (i + 4) {
                return Err(JpegError::Truncated);
            }
            let contents_slice = vstd::slice::slice_subrange(b, i + 4, i + 2 + l);
            let contents = vstd::slice::slice_to_vec(contents_slice);
            let seg = JpegSegment { marker, contents };
            proof {
                let ghost prev = segments@;
                lemma_segs_bytes_push(prev, seg);
                assert(seg_bytes(seg) =~= b@.subrange(i as int, i + 2 + l));
                assert(segs_bytes(prev.push(seg)) =~= b@.subrange(2, i + 2 + l));
            }
            segments.push(seg);
            i = i + 2 + l;
        }
    }

    /// Re-encode the document to bytes.
    pub fn encode(&self) -> (r: Vec<u8>)
        requires
            doc_wf(*self),
        ensures
            r@ == doc_bytes(*self),
    {
        let mut out: Vec<u8> = Vec::new();
        out.push(0xFF);
        out.push(MARKER_SOI);
        proof {
            assert(out@ =~= seq![0xFFu8, 0xD8u8] + segs_bytes(self.segments@.take(0)));
        }
        let mut k: usize = 0;
        while k < self.segments.len()
            invariant
                doc_wf(*self),
                0 <= k <= self.segments@.len(),
                out@ == seq![0xFFu8, 0xD8u8] + segs_bytes(self.segments@.take(k as int)),
            decreases self.segments@.len() - k,
        {
            let seg = &self.segments[k];
            out.push(0xFF);
            out.push(seg.marker);
            let len_field = (seg.contents.len() + 2) as u16;
            out.push((len_field / 256) as u8);
            out.push((len_field % 256) as u8);
            out.extend_from_slice(seg.contents.as_slice());
            proof {
                let ghost ss = self.segments@;
                assert(ss.take(k + 1) =~= ss.take(k as int).push(ss[k as int]));
                lemma_segs_bytes_push(ss.take(k as int), ss[k as int]);
                assert(out@ =~= seq![0xFFu8, 0xD8u8] + segs_bytes(ss.take(k + 1)));
            }
            k += 1;
        }
        out.extend_from_slice(self.tail.as_slice());
        proof {
            assert(self.segments@.take(self.segments@.len() as int) =~= self.segments@);
            assert(out@ =~= doc_bytes(*self));
        }
        out
    }
}

} // verus!
