//! XMP packet builder and merger for Motion Photo semantics.
//!
//! A fresh packet declares the GCamera motion-photo properties and a
//! `Container:Directory` listing the primary image, the optional gain map,
//! and the video clip. When a prior packet exists, it is read as a stream of
//! markup tokens: any existing `Container:Directory` subtree is dropped, all
//! unrelated content passes through unchanged, and a fresh description is
//! injected immediately before the closing `rdf:RDF` tag. An existing packet
//! without that anchor cannot be merged, and the caller falls back to a
//! fresh one.

use vstd::prelude::*;

use crate::binutil::{dec_rep, matches_at, push_decimal, push_str_bytes};
use crate::motion::MotionMeta;

verus! {

use vstd::string::StringSliceAdditionalSpecFns;

/// Why a prior XMP packet could not be merged.
#[derive(Clone, Copy, Debug, PartialEq, Eq, Structural)]
pub enum XmpError {
    /// A `<` was never closed by a matching `>`.
    UnclosedTag,
    /// No closing `rdf:RDF` element to anchor the injection.
    MissingRdfAnchor,
}

/// Kinds of markup token the merger distinguishes: text between tags, start
/// tags, end tags, empty-element tags, and other markup (declarations,
/// comments, processing instructions), which passes through untouched.
#[derive(Clone, Copy, Debug, PartialEq, Eq, Structural)]
pub enum TokKind {
    Text,
    Start,
    End,
    Empty,
    Other,
}

/// First position at or after `i` holding `<`, or the length.
pub open spec fn find_lt(b: Seq<u8>, i: int) -> int
    decreases b.len() - i when 0 <= i
{
    if i >= b.len() {
        b.len() as int
    } else if b[i] == 60 {
        i
    } else {
        find_lt(b, i + 1)
    }
}

/// First position at or after `i` holding `>` outside a quoted attribute
/// value, or -1; `q` is the quote byte currently open (0 for none).
pub open spec fn find_gt(b: Seq<u8>, i: int, q: u8) -> int
    decreases b.len() - i when 0 <= i
{
    if i >= b.len() {
        -1
    } else if q != 0 {
        if b[i] == q {
            find_gt(b, i + 1, 0)
        } else {
            find_gt(b, i + 1, q)
        }
    } else if b[i] == 62 {
        i
    } else if b[i] == 34 || b[i] == 39 {
        find_gt(b, i + 1, b[i])
    } else {
        find_gt(b, i + 1, 0)
    }
}

/// A byte that ends an element name.
pub open spec fn is_name_delim(c: u8) -> bool {
    c == 32 || c == 9 || c == 10 || c == 13 || c == 47 || c == 62
}

/// First position in `[i, limit)` holding a name delimiter, or `limit`.
pub open spec fn name_end(b: Seq<u8>, i: int, limit: int) -> int
    decreases limit - i when i <= limit
{
    if i >= limit {
        limit
    } else if is_name_delim(b[i]) {
        i
    } else {
        name_end(b, i + 1, limit)
    }
}

/// The token that starts at `pos`: its kind, its end (exclusive), and the
/// range of its element name (empty for text and other markup). `None` when
/// a `<` is never closed.
pub open spec fn tok_at(b: Seq<u8>, pos: int) -> Option<(TokKind, int, int, int)>
    recommends
        0 <= pos < b.len(),
{
    if b[pos] != 60 {
        Some((TokKind::Text, find_lt(b, pos + 1), pos, pos))
    } else {
        let g = find_gt(b, pos + 1, 0);
        if g < 0 {
            None
        } else {
            let e = g + 1;
            if pos + 1 < g && (b[pos + 1] == 63 || b[pos + 1] == 33) {
                Some((TokKind::Other, e, pos, pos))
            } else if pos + 1 < g && b[pos + 1] == 47 {
                Some((TokKind::End, e, pos + 2, name_end(b, pos + 2, g)))
            } else if g - 1 > pos && b[g - 1] == 47 {
                Some((TokKind::Empty, e, pos + 1, name_end(b, pos + 1, g)))
            } else {
                Some((TokKind::Start, e, pos + 1, name_end(b, pos + 1, g)))
            }
        }
    }
}

/// The merged packet from position `pos` on, given the current depth inside
/// a dropped `Container:Directory` subtree and whether the fresh description
/// was already injected; `None` when the input is malformed or the `rdf:RDF`
/// anchor never appears.
pub open spec fn merge_from(
    b: Seq<u8>,
    pos: int,
    meta: MotionMeta,
    dropping: int,
    injected: bool,
) -> Option<Seq<u8>>
    decreases b.len() - pos when 0 <= pos
{
    if pos >= b.len() {
        if injected {
            Some(Seq::<u8>::empty())
        } else {
            None
        }
    } else {
        match tok_at(b, pos) {
            None => None,
            Some((k, e, ns, ne)) => if !(pos < e <= b.len() && 0 <= ns <= ne <= b.len()) {
                None
            } else {
                let t = b.subrange(pos, e);
                let name = b.subrange(ns, ne);
                if k == TokKind::Start && name == "Container:Directory".spec_bytes() {
                    merge_from(b, e, meta, 1, injected)
                } else if k == TokKind::Start && dropping > 0 {
                    merge_from(b, e, meta, dropping + 1, injected)
                } else if k == TokKind::End && dropping > 0 {
                    merge_from(b, e, meta, dropping - 1, injected)
                } else if k == TokKind::Empty && dropping > 0 {
                    merge_from(b, e, meta, dropping, injected)
                } else if k == TokKind::End && name == "rdf:RDF".spec_bytes() && !injected {
                    match merge_from(b, e, meta, dropping, true) {
                        None => None,
                        Some(rest) => Some(description_bytes(meta) + t + rest),
                    }
                } else {
                    match merge_from(b, e, meta, dropping, injected) {
                        None => None,
                        Some(rest) => Some(t + rest),
                    }
                }
            },
        }
    }
}

/// The packet [`build_motion_xmp`] produces: the merge of the prior packet
/// when one exists and can be merged, else a fresh packet.
#[verifier::opaque]
pub open spec fn motion_xmp_bytes(existing: Option<Seq<u8>>, meta: MotionMeta) -> Seq<u8> {
    match existing {
        Some(x) => match merge_from(x, 0, meta, 0, false) {
            Some(v) => v,
            None => fresh_xmp_bytes(meta),
        },
        None => fresh_xmp_bytes(meta),
    }
}

/// Scan for the closing `>` from `start` on, skipping quoted attribute
/// values.
fn scan_gt(b: &[u8], start: usize) -> (r: Option<usize>)
    requires
        start <= b@.len(),
    ensures
        match r {
            Some(g) => find_gt(b@, start as int, 0) == g && start <= g < b@.len(),
            None => find_gt(b@, start as int, 0) == -1,
        },
{
    let blen = b.len();
    let mut i: usize = start;
    let mut q: u8 = 0;
    loop
        invariant
            start <= i <= blen,
            blen == b@.len(),
            find_gt(b@, start as int, 0) == find_gt(b@, i as int, q),
        decreases blen - i,
    {
        if i >= blen {
            return None;
        }
        let c = b[i];
        if q != 0 {
            proof {
                assert(find_gt(b@, i as int, q) == (if c == q {
                    find_gt(b@, i + 1, 0u8)
                } else {
                    find_gt(b@, i + 1, q)
                }));
            }
            if c == q {
                q = 0;
            }
        } else if c == 62 {
            proof {
                assert(find_gt(b@, i as int, 0u8) == i);
            }
            return Some(i);
        } else if c == 34 || c == 39 {
            proof {
                assert(find_gt(b@, i as int, 0u8) == find_gt(b@, i + 1, c));
            }
            q = c;
        } else {
            proof {
                assert(find_gt(b@, i as int, 0u8) == find_gt(b@, i + 1, 0u8));
            }
        }
        i += 1;
    }
}

/// Read the token that starts at `pos`.
fn next_token(b: &[u8], pos: usize) -> (r: Option<(TokKind, usize, usize, usize)>)
    requires
        pos < b@.len(),
    ensures
        match r {
            Some(t) => tok_at(b@, pos as int) == Some((t.0, t.1 as int, t.2 as int, t.3 as int))
                && pos < t.1 <= b@.len() && 0 <= t.2 <= t.3 <= b@.len(),
            None => tok_at(b@, pos as int) is None,
        },
{
    let blen = b.len();
    if b[pos] != 60 {
        let mut i: usize = pos + 1;
        loop
            invariant
                pos + 1 <= i <= blen,
                blen == b@.len(),
                find_lt(b@, pos + 1) == find_lt(b@, i as int),
            ensures
                i <= blen,
                find_lt(b@, pos + 1) == i,
            decreases blen - i,
        {
            if i >= blen {
                break;
            }
            if b[i] == 60 {
                break;
            }
            i += 1;
        }
        return Some((TokKind::Text, i, pos, pos));
    }
    let g = match scan_gt(b, pos + 1) {
        Some(g) => g,
        None => {
            return None;
        },
    };
    let e = g + 1;
    if pos + 1 < g && (b[pos + 1] == 63 || b[pos + 1] == 33) {
        return Some((TokKind::Other, e, pos, pos));
    }
    let (kind, nstart) = if pos + 1 < g && b[pos + 1] == 47 {
        (TokKind::End, pos + 2)
    } else if g - 1 > pos && b[g - 1] == 47 {
        (TokKind::Empty, pos + 1)
    } else {
        (TokKind::Start, pos + 1)
    };
    // Scan for the end of the element name.
    let mut j: usize = nstart;
    loop
        invariant
            nstart <= j <= g < blen,
            blen == b@.len(),
            name_end(b@, nstart as int, g as int) == name_end(b@, j as int, g as int),
        ensures
            name_end(b@, nstart as int, g as int) == j,
        decreases g - j,
    {
        if j >= g {
            break;
        }
        let c = b[j];
        if c == 32 || c == 9 || c == 10 || c == 13 || c == 47 || c == 62 {
            break;
        }
        j += 1;
    }
    Some((kind, e, nstart, j))
}

/// Merge the motion description for `meta` into a prior XMP packet: drop any
/// existing `Container:Directory` subtree, pass everything else through
/// unchanged, and inject a fresh description immediately before the closing
/// `rdf:RDF` tag. Fails exactly when [`merge_from`] has no answer: a `<`
/// never closed, or no `rdf:RDF` anchor.
pub fn merge_into_existing_xmp(existing: &[u8], meta: &MotionMeta) -> (r: Result<Vec<u8>, XmpError>)
    ensures
        match r {
            Ok(v) => merge_from(existing@, 0, *meta, 0, false) == Some(v@),
            Err(_) => merge_from(existing@, 0, *meta, 0, false) is None,
        },
{
    let blen = existing.len();
    let mut out: Vec<u8> = Vec::new();
    let mut pos: usize = 0;
    let mut dropping: usize = 0;
    let mut injected: bool = false;
    loop
        invariant
            0 <= pos <= blen,
            dropping <= pos,
            blen == existing@.len(),
            merge_from(existing@, 0, *meta, 0, false) == (match merge_from(
                existing@,
                pos as int,
                *meta,
                dropping as int,
                injected,
            ) {
                None => None::<Seq<u8>>,
                Some(rest) => Some(out@ + rest),
            }),
        decreases blen - pos,
    {
        if pos >= blen {
            if injected {
                proof {
                    assert(out@ + Seq::<u8>::empty() =~= out@);
                }
                return Ok(out);
            }
            return Err(XmpError::MissingRdfAnchor);
        }
        let t = match next_token(existing, pos) {
            Some(t) => t,
            None => {
                return Err(XmpError::UnclosedTag);
            },
        };
        let (kind, e, ns, ne) = t;
        let name = vstd::slice::slice_subrange(existing, ns, ne);
        let is_dir_start = matches!(kind, TokKind::Start) && crate::binutil::bytes_eq(
            name,
            "Container:Directory".as_bytes(),
        );
        let is_rdf_end = matches!(kind, TokKind::End) && crate::binutil::bytes_eq(
            name,
            "rdf:RDF".as_bytes(),
        );
        if is_dir_start {
            dropping = 1;
        } else if matches!(kind, TokKind::Start) && dropping > 0 {
            dropping += 1;
        } else if matches!(kind, TokKind::End) && dropping > 0 {
            dropping -= 1;
        } else if matches!(kind, TokKind::Empty) && dropping > 0 {
            // Swallowed with the rest of the dropped subtree.
        } else if is_rdf_end && !injected {
            write_motion_description(&mut out, meta);
            out.extend_from_slice(vstd::slice::slice_subrange(existing, pos, e));
            injected = true;
        } else {
            out.extend_from_slice(vstd::slice::slice_subrange(existing, pos, e));
        }
        pos = e;
    }
}

/// Build the XMP packet for `meta`: merge into the prior packet when one is
/// given and has an `rdf:RDF` anchor, else build a fresh packet.
pub fn build_motion_xmp(existing: Option<&[u8]>, meta: &MotionMeta) -> (r: Vec<u8>)
    ensures
        r@ == motion_xmp_bytes(
            match existing {
                Some(e) => Some(e@),
                None => None,
            },
            *meta,
        ),
{
    proof {
        reveal(motion_xmp_bytes);
    }
    match existing {
        Some(e) => match merge_into_existing_xmp(e, meta) {
            Ok(v) => v,
            Err(_) => build_fresh_xmp(meta),
        },
        None => build_fresh_xmp(meta),
    }
}

/// One `rdf:li` directory entry wrapping a `Container:Item`.
#[verifier::opaque]
pub open spec fn item_bytes(mime: Seq<u8>, semantic: Seq<u8>, len: int) -> Seq<u8> {
    "<rdf:li rdf:parseType=\"Resource\"><Container:Item Item:Mime=\"".spec_bytes() + mime
        + "\" Item:Semantic=\"".spec_bytes() + semantic + "\" Item:Length=\"".spec_bytes()
        + dec_rep(len) + "\" Item:Padding=\"0\"/></rdf:li>".spec_bytes()
}

/// The `Container:Directory` sequence: Primary, the gain map when present,
/// then the video clip.
#[verifier::opaque]
pub open spec fn directory_bytes(meta: MotionMeta) -> Seq<u8> {
    "<Container:Directory><rdf:Seq>".spec_bytes() + item_bytes(
        "image/jpeg".spec_bytes(),
        "Primary".spec_bytes(),
        meta.primary_len as int,
    ) + (match meta.gainmap_len {
        Some(g) => item_bytes("image/jpeg".spec_bytes(), "GainMap".spec_bytes(), g as int),
        None => Seq::<u8>::empty(),
    }) + item_bytes("video/mp4".spec_bytes(), "MotionPhoto".spec_bytes(), meta.video_len as int)
        + "</rdf:Seq></Container:Directory>".spec_bytes()
}

/// The `rdf:Description` element carrying the GCamera motion-photo
/// properties and the container directory.
#[verifier::opaque]
pub open spec fn description_bytes(meta: MotionMeta) -> Seq<u8> {
    "<rdf:Description xmlns:GCamera=\"http://ns.google.com/photos/1.0/camera/\" xmlns:Container=\"http://ns.google.com/photos/1.0/container/\" xmlns:Item=\"http://ns.google.com/photos/1.0/container/item/\" GCamera:MotionPhoto=\"1\" GCamera:MotionPhotoVersion=\"1\" GCamera:MotionPhotoPresentationTimestampUs=\"".spec_bytes()
        + dec_rep(meta.presentation_timestamp_us as int) + "\">".spec_bytes() + directory_bytes(
        meta,
    ) + "</rdf:Description>".spec_bytes()
}

/// A complete fresh packet: the `x:xmpmeta` and `rdf:RDF` wrappers around the
/// motion description.
#[verifier::opaque]
pub open spec fn fresh_xmp_bytes(meta: MotionMeta) -> Seq<u8> {
    "<x:xmpmeta xmlns:x=\"adobe:ns:meta/\"><rdf:RDF xmlns:rdf=\"http://www.w3.org/1999/02/22-rdf-syntax-ns#\">".spec_bytes()
        + description_bytes(meta) + "</rdf:RDF></x:xmpmeta>".spec_bytes()
}

/// Write one directory entry.
pub fn write_container_item(out: &mut Vec<u8>, mime: &str, semantic: &str, len: usize)
    ensures
        final(out)@ == old(out)@ + item_bytes(mime.spec_bytes(), semantic.spec_bytes(), len as int),
{
    push_str_bytes(out, "<rdf:li rdf:parseType=\"Resource\"><Container:Item Item:Mime=\"");
    push_str_bytes(out, mime);
    push_str_bytes(out, "\" Item:Semantic=\"");
    push_str_bytes(out, semantic);
    push_str_bytes(out, "\" Item:Length=\"");
    push_decimal(out, len as u64);
    push_str_bytes(out, "\" Item:Padding=\"0\"/></rdf:li>");
    proof {
        reveal(item_bytes);
        assert(out@ =~= old(out)@ + item_bytes(
            mime.spec_bytes(),
            semantic.spec_bytes(),
            len as int,
        ));
    }
}

/// Write the container directory for `meta`.
pub fn write_container_directory(out: &mut Vec<u8>, meta: &MotionMeta)
    ensures
        final(out)@ == old(out)@ + directory_bytes(*meta),
{
    push_str_bytes(out, "<Container:Directory><rdf:Seq>");
    write_container_item(out, "image/jpeg", "Primary", meta.primary_len);
    match meta.gainmap_len {
        Some(g) => write_container_item(out, "image/jpeg", "GainMap", g),
        None => (),
    }
    write_container_item(out, "video/mp4", "MotionPhoto", meta.video_len);
    push_str_bytes(out, "</rdf:Seq></Container:Directory>");
    proof {
        reveal(directory_bytes);
        assert(out@ =~= old(out)@ + directory_bytes(*meta));
    }
}

/// Write the motion description for `meta`.
pub fn write_motion_description(out: &mut Vec<u8>, meta: &MotionMeta)
    ensures
        final(out)@ == old(out)@ + description_bytes(*meta),
{
    push_str_bytes(
        out,
        "<rdf:Description xmlns:GCamera=\"http://ns.google.com/photos/1.0/camera/\" xmlns:Container=\"http://ns.google.com/photos/1.0/container/\" xmlns:Item=\"http://ns.google.com/photos/1.0/container/item/\" GCamera:MotionPhoto=\"1\" GCamera:MotionPhotoVersion=\"1\" GCamera:MotionPhotoPresentationTimestampUs=\"",
    );
    push_decimal(out, meta.presentation_timestamp_us);
    push_str_bytes(out, "\">");
    write_container_directory(out, meta);
    push_str_bytes(out, "</rdf:Description>");
    proof {
        reveal(description_bytes);
        assert(out@ =~= old(out)@ + description_bytes(*meta));
    }
}

/// Build a complete fresh XMP packet for `meta`.
pub fn build_fresh_xmp(meta: &MotionMeta) -> (r: Vec<u8>)
    ensures
        r@ == fresh_xmp_bytes(*meta),
{
    let mut out: Vec<u8> = Vec::new();
    push_str_bytes(
        &mut out,
        "<x:xmpmeta xmlns:x=\"adobe:ns:meta/\"><rdf:RDF xmlns:rdf=\"http://www.w3.org/1999/02/22-rdf-syntax-ns#\">",
    );
    write_motion_description(&mut out, meta);
    push_str_bytes(&mut out, "</rdf:RDF></x:xmpmeta>");
    proof {
        reveal(fresh_xmp_bytes);
        assert(out@ =~= fresh_xmp_bytes(*meta));
    }
    out
}


/// The packet bytes carry the fresh description for `meta` somewhere.
pub open spec fn contains_description(o: Seq<u8>, meta: MotionMeta) -> bool {
    exists|i: int| #[trigger] matches_at(o, description_bytes(meta), i)
}


/// A successful merge always carries the fresh description for `meta`: the
/// injection happens on the (unique) path that flips `injected`, so the
/// merged packet declares the motion-photo directory exactly as a fresh
/// packet would. Re-merging therefore replaces the directory rather than
/// accumulating copies: the prior one is dropped by the
/// `Container:Directory` rule and a single fresh description is injected
/// again.
pub proof fn lemma_merge_injects_description(
    b: Seq<u8>,
    pos: int,
    meta: MotionMeta,
    dropping: int,
)
    requires
        0 <= pos,
    ensures
        match merge_from(b, pos, meta, dropping, false) {
            Some(o) => contains_description(o, meta),
            None => true,
        },
    decreases b.len() - pos,
{
    if pos >= b.len() {
        // Without an injection the merge fails here: nothing to show.
    } else {
        match tok_at(b, pos) {
            None => {},
            Some((k, e, ns, ne)) => {
                if !(pos < e <= b.len() && 0 <= ns <= ne <= b.len()) {
                } else {
                    let t = b.subrange(pos, e);
                    let name = b.subrange(ns, ne);
                    let desc = description_bytes(meta);
                    if k == TokKind::Start && name == "Container:Directory".spec_bytes() {
                        lemma_merge_injects_description(b, e, meta, 1);
                    } else if k == TokKind::Start && dropping > 0 {
                        lemma_merge_injects_description(b, e, meta, dropping + 1);
                    } else if k == TokKind::End && dropping > 0 {
                        lemma_merge_injects_description(b, e, meta, dropping - 1);
                    } else if k == TokKind::Empty && dropping > 0 {
                        lemma_merge_injects_description(b, e, meta, dropping);
                    } else if k == TokKind::End && name == "rdf:RDF".spec_bytes() {
                        match merge_from(b, e, meta, dropping, true) {
                            None => {},
                            Some(rest) => {
                                let o = desc + t + rest;
                                assert(o.subrange(0, desc.len() as int) =~= desc);
                                assert(matches_at(o, description_bytes(meta), 0));
                                assert(contains_description(o, meta));
                                assert(merge_from(b, pos, meta, dropping, false) == Some(o));
                            },
                        }
                    } else {
                        lemma_merge_injects_description(b, e, meta, dropping);
                        match merge_from(b, e, meta, dropping, false) {
                            None => {},
                            Some(rest) => {
                                let o = t + rest;
                                assert(contains_description(rest, meta));
                                let i = choose|i: int|
                                    #[trigger] matches_at(rest, description_bytes(meta), i);
                                assert(o.subrange(
                                    t.len() as int + i,
                                    t.len() as int + i + desc.len() as int,
                                ) =~= rest.subrange(i, i + desc.len() as int));
                                assert(matches_at(rest, description_bytes(meta), i));
                                assert(matches_at(o, description_bytes(meta), t.len() as int + i));
                                assert(contains_description(o, meta));
                                assert(merge_from(b, pos, meta, dropping, false) == Some(o));
                            },
                        }
                    }
                }
            },
        }
    }
}

/// The packet built for `meta` always carries the fresh description, whether
/// it was merged into a prior packet or built from scratch.
pub proof fn lemma_motion_xmp_has_description(ex: Option<Seq<u8>>, meta: MotionMeta)
    ensures
        contains_description(motion_xmp_bytes(ex, meta), meta),
{
    reveal(motion_xmp_bytes);
    reveal(fresh_xmp_bytes);
    let desc = description_bytes(meta);
    let fresh = fresh_xmp_bytes(meta);
    let head =
        "<x:xmpmeta xmlns:x=\"adobe:ns:meta/\"><rdf:RDF xmlns:rdf=\"http://www.w3.org/1999/02/22-rdf-syntax-ns#\">".spec_bytes();
    assert(fresh.subrange(head.len() as int, head.len() as int + desc.len() as int) =~= desc);
    assert(matches_at(fresh, description_bytes(meta), head.len() as int));
    assert(contains_description(fresh, meta));
    match ex {
        Some(x) => match merge_from(x, 0, meta, 0, false) {
            Some(o) => {
                lemma_merge_injects_description(x, 0, meta, 0);
                assert(contains_description(o, meta));
                assert(motion_xmp_bytes(ex, meta) == o);
            },
            None => {
                assert(motion_xmp_bytes(ex, meta) == fresh);
            },
        },
        None => {
            assert(motion_xmp_bytes(ex, meta) == fresh);
        },
    }
}

} // verus!
