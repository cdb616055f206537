//! Input pair resolution for the UltraHDR bake: explicit role flags, a
//! single-seed sibling scan keyed on the XMP `OriginalDocumentID`, or
//! probe-based auto-detection of which input carries the gain map.
//!
//! File and directory reading stay with the caller; the functions here make
//! every decision from plain values: argument records, probe outcomes, and
//! byte windows read from candidate files.

use vstd::prelude::*;

use crate::binutil::trim_spec;
use crate::cli::BakeArgs;
use crate::error::{Error, ErrorCode};

verus! {

use vstd::string::StringSliceAdditionalSpecFns;

/// How an input was recognized as the HDR/gain-map member of a pair.
#[derive(Debug, Clone, Copy, PartialEq, Eq, Structural)]
pub enum HdrDetection {
    /// The codec probe found ISO 21496 gain map metadata.
    ProbeGainMapMetadata,
}

impl HdrDetection {
    /// The reason, for diagnostics.
    pub fn as_str(&self) -> (r: &'static str)
        ensures
            r@ == "libuhdr probe found gain map metadata"@,
    {
        "libuhdr probe found gain map metadata"
    }
}

/// A resolved HDR/SDR input pair.
#[derive(Debug)]
pub struct InputPair {
    /// Path of the HDR/gain-map input.
    pub hdr: String,
    /// Path of the SDR base input.
    pub sdr: String,
}

/// Why input resolution failed.
#[derive(Debug, Clone, Copy, PartialEq, Eq, Structural)]
pub enum ResolveError {
    /// Only one of the two role flags was given.
    ProvideBothRoles,
    /// Neither flags nor one or two positional inputs were given.
    ProvideInputs,
    /// The seed input carries no XMP `OriginalDocumentID`.
    MissingDocumentId,
    /// No sibling file shares the seed's `OriginalDocumentID`.
    NoSiblingFound,
    /// Several sibling files share the seed's `OriginalDocumentID`.
    MultipleSiblings,
    /// Both inputs carry gain map metadata.
    BothLookUltraHdr,
    /// Neither input carries gain map metadata.
    NoGainMapMetadata,
}

/// The description text of each resolution failure.
#[verifier::opaque]
pub open spec fn resolve_error_text(e: ResolveError) -> Seq<char> {
    match e {
        ResolveError::ProvideBothRoles => "Provide both --hdr and --sdr together (or omit both to auto-detect)"@,
        ResolveError::ProvideInputs => "Provide --hdr and --sdr, or 1-2 positional JPEGs for auto-detection"@,
        ResolveError::MissingDocumentId => "Input missing XMP OriginalDocumentID; cannot find pair"@,
        ResolveError::NoSiblingFound => "No sibling with matching OriginalDocumentID found"@,
        ResolveError::MultipleSiblings => "Multiple siblings share the OriginalDocumentID. Please specify --hdr/--sdr explicitly."@,
        ResolveError::BothLookUltraHdr => "Both inputs look like UltraHDR (ISO 21496 gain map metadata). Please specify --hdr and --sdr explicitly."@,
        ResolveError::NoGainMapMetadata => "Could not find ISO 21496 gain map metadata in either input. Specify --hdr and --sdr explicitly."@,
    }
}

impl ResolveError {
    /// A short description of the failure, with the corrective suggestion.
    pub fn message(&self) -> (r: &'static str)
        ensures
            r@ == resolve_error_text(*self),
    {
        proof {
            reveal(resolve_error_text);
        }
        match self {
            ResolveError::ProvideBothRoles => "Provide both --hdr and --sdr together (or omit both to auto-detect)",
            ResolveError::ProvideInputs => "Provide --hdr and --sdr, or 1-2 positional JPEGs for auto-detection",
            ResolveError::MissingDocumentId => "Input missing XMP OriginalDocumentID; cannot find pair",
            ResolveError::NoSiblingFound => "No sibling with matching OriginalDocumentID found",
            ResolveError::MultipleSiblings => "Multiple siblings share the OriginalDocumentID. Please specify --hdr/--sdr explicitly.",
            ResolveError::BothLookUltraHdr => "Both inputs look like UltraHDR (ISO 21496 gain map metadata). Please specify --hdr and --sdr explicitly.",
            ResolveError::NoGainMapMetadata => "Could not find ISO 21496 gain map metadata in either input. Specify --hdr and --sdr explicitly.",
        }
    }
}

/// The next step input resolution asks of its driver.
#[derive(Debug)]
pub enum ResolvePlan {
    /// Both roles were given explicitly: the pair is final.
    Explicit(InputPair),
    /// One positional input: scan its directory for the sibling with the
    /// same `OriginalDocumentID`.
    SeedScan(String),
    /// Two positional inputs: probe both for gain map metadata and assign
    /// roles by exclusion.
    Probe(String, String),
}

/// Decide how to resolve the bake inputs from the argument record alone.
///
/// Explicit flags win and must come as a pair; otherwise exactly one
/// positional input starts a sibling scan, and exactly two start
/// probe-based auto-detection.
pub fn resolve_inputs(args: &BakeArgs) -> (r: Result<ResolvePlan, ResolveError>)
    ensures
        match r {
            Ok(ResolvePlan::Explicit(p)) => (args.hdr matches Some(h) && p.hdr@ == h@) && (
            args.sdr matches Some(s) && p.sdr@ == s@),
            Ok(ResolvePlan::SeedScan(seed)) => args.hdr is None && args.sdr is None
                && args.inputs@.len() == 1 && seed@ == args.inputs@[0]@,
            Ok(ResolvePlan::Probe(a, b)) => args.hdr is None && args.sdr is None
                && args.inputs@.len() == 2 && a@ == args.inputs@[0]@ && b@ == args.inputs@[1]@,
            Err(ResolveError::ProvideBothRoles) => (args.hdr is Some || args.sdr is Some) && !(
            args.hdr is Some && args.sdr is Some),
            Err(ResolveError::ProvideInputs) => args.hdr is None && args.sdr is None
                && args.inputs@.len() != 1 && args.inputs@.len() != 2,
            Err(_) => false,
        },
{
    if args.hdr.is_some() || args.sdr.is_some() {
        match (&args.hdr, &args.sdr) {
            (Some(h), Some(s)) => {
                return Ok(ResolvePlan::Explicit(InputPair { hdr: h.clone(), sdr: s.clone() }));
            },
            _ => {
                return Err(ResolveError::ProvideBothRoles);
            },
        }
    }
    if args.inputs.len() == 1 {
        return Ok(ResolvePlan::SeedScan(args.inputs[0].clone()));
    }
    if args.inputs.len() == 2 {
        return Ok(ResolvePlan::Probe(args.inputs[0].clone(), args.inputs[1].clone()));
    }
    Err(ResolveError::ProvideInputs)
}

/// Assign HDR and SDR roles from the two probe outcomes: exactly one input
/// must carry gain map metadata; both or neither is a failure that asks for
/// explicit flags.
pub fn auto_detect_pair(
    a: &str,
    b: &str,
    a_det: Option<HdrDetection>,
    b_det: Option<HdrDetection>,
) -> (r: Result<(InputPair, HdrDetection), ResolveError>)
    ensures
        match r {
            Ok((p, why)) => (a_det matches Some(w) && b_det is None && p.hdr@ == a@ && p.sdr@ == b@
                && why == w) || (b_det matches Some(w) && a_det is None && p.hdr@ == b@ && p.sdr@
                == a@ && why == w),
            Err(ResolveError::BothLookUltraHdr) => a_det is Some && b_det is Some,
            Err(ResolveError::NoGainMapMetadata) => a_det is None && b_det is None,
            Err(_) => false,
        },
{
    match (a_det, b_det) {
        (Some(w), None) => Ok((InputPair { hdr: a.to_owned(), sdr: b.to_owned() }, w)),
        (None, Some(w)) => Ok((InputPair { hdr: b.to_owned(), sdr: a.to_owned() }, w)),
        (Some(_), Some(_)) => Err(ResolveError::BothLookUltraHdr),
        (None, None) => Err(ResolveError::NoGainMapMetadata),
    }
}

/// Classify a probe outcome: metadata found, plainly absent, or a hard
/// failure. An invalid-parameter error from the probe means "not a gain-map
/// JPEG" and is a normal outcome, not a failure.
pub fn classify_probe_outcome(outcome: Result<bool, Error>) -> (r: Result<
    Option<HdrDetection>,
    Error,
>)
    ensures
        match r {
            Ok(Some(HdrDetection::ProbeGainMapMetadata)) => outcome == Ok::<bool, Error>(true),
            Ok(None) => outcome == Ok::<bool, Error>(false) || (outcome matches Err(e) && e.code
                == ErrorCode::InvalidParam),
            Err(e) => outcome matches Err(e2) && e2 == e && e.code != ErrorCode::InvalidParam,
        },
{
    match outcome {
        Ok(true) => Ok(Some(HdrDetection::ProbeGainMapMetadata)),
        Ok(false) => Ok(None),
        Err(e) => {
            if matches!(e.code, ErrorCode::InvalidParam) {
                Ok(None)
            } else {
                Err(e)
            }
        },
    }
}

/// Pick the single sibling match, or say why resolution cannot continue.
pub fn decide_sibling_matches(matches: &Vec<String>) -> (r: Result<String, ResolveError>)
    ensures
        match r {
            Ok(m) => matches@.len() == 1 && m@ == matches@[0]@,
            Err(ResolveError::NoSiblingFound) => matches@.len() == 0,
            Err(ResolveError::MultipleSiblings) => matches@.len() > 1,
            Err(_) => false,
        },
{
    if matches.len() == 0 {
        Err(ResolveError::NoSiblingFound)
    } else if matches.len() == 1 {
        Ok(matches[0].clone())
    } else {
        Err(ResolveError::MultipleSiblings)
    }
}

/// First index at or after `i` holding byte `c`, or the length.
pub open spec fn find_byte(b: Seq<u8>, i: int, c: u8) -> int
    decreases b.len() - i when 0 <= i
{
    if i >= b.len() {
        b.len() as int
    } else if b[i] == c {
        i
    } else {
        find_byte(b, i + 1, c)
    }
}

/// Scan for byte `c` from position `i` on.
fn find_byte_from(b: &[u8], start: usize, c: u8) -> (r: usize)
    requires
        start <= b@.len(),
    ensures
        r == find_byte(b@, start as int, c),
        start <= r <= b@.len(),
{
    let blen = b.len();
    let mut i: usize = start;
    loop
        invariant
            start <= i <= blen,
            blen == b@.len(),
            find_byte(b@, start as int, c) == find_byte(b@, i as int, c),
        decreases blen - i,
    {
        if i >= blen {
            return i;
        }
        if b[i] == c {
            return i;
        }
        i += 1;
    }
}

/// The value extracted from the bytes that follow the `OriginalDocumentID`
/// marker: the element form takes the text between the first `>` and the
/// next `<`; failing that, the attribute form takes the text between the
/// first pair of double quotes after the first `=`. Either way the text is
/// trimmed and must be non-empty.
pub open spec fn doc_id_elem_form(b: Seq<u8>) -> Option<Seq<u8>> {
    let gt = find_byte(b, 0, 62);
    if gt >= b.len() {
        None
    } else {
        let lt = find_byte(b, gt + 1, 60);
        if lt >= b.len() {
            None
        } else {
            let t = trim_spec(b.subrange(gt + 1, lt));
            if t.len() > 0 {
                Some(t)
            } else {
                None
            }
        }
    }
}

/// The attribute form: `OriginalDocumentID="value"`.
pub open spec fn doc_id_attr_form(b: Seq<u8>) -> Option<Seq<u8>> {
    let eq = find_byte(b, 0, 61);
    if eq >= b.len() {
        None
    } else {
        let q1 = find_byte(b, eq + 1, 34);
        if q1 >= b.len() {
            None
        } else {
            let q2 = find_byte(b, q1 + 1, 34);
            if q2 >= b.len() {
                None
            } else {
                let t = trim_spec(b.subrange(q1 + 1, q2));
                if t.len() > 0 {
                    Some(t)
                } else {
                    None
                }
            }
        }
    }
}

/// The document id in the bytes after the marker: element form first, then
/// the attribute form.
pub open spec fn doc_id_spec(b: Seq<u8>) -> Option<Seq<u8>> {
    match doc_id_elem_form(b) {
        Some(v) => Some(v),
        None => doc_id_attr_form(b),
    }
}

/// Extract the `OriginalDocumentID` value from the bytes that follow the
/// marker text.
pub fn extract_original_document_id(after_marker: &[u8]) -> (r: Option<Vec<u8>>)
    ensures
        match r {
            Some(v) => doc_id_spec(after_marker@) == Some(v@),
            None => doc_id_spec(after_marker@) is None,
        },
{
    let blen = after_marker.len();
    // Element form: <ns:OriginalDocumentID>value</ns:OriginalDocumentID>
    let gt = find_byte_from(after_marker, 0, 62);
    if gt < blen {
        let lt = find_byte_from(after_marker, gt + 1, 60);
        if lt < blen {
            let raw = vstd::slice::slice_subrange(after_marker, gt + 1, lt);
            let t = crate::binutil::trim_spaces(raw);
            if t.len() > 0 {
                return Some(t);
            }
        }
    }
    // Attribute form: OriginalDocumentID="value"
    let eq = find_byte_from(after_marker, 0, 61);
    if eq < blen {
        let q1 = find_byte_from(after_marker, eq + 1, 34);
        if q1 < blen {
            let q2 = find_byte_from(after_marker, q1 + 1, 34);
            if q2 < blen {
                let raw = vstd::slice::slice_subrange(after_marker, q1 + 1, q2);
                let t = crate::binutil::trim_spaces(raw);
                if t.len() > 0 {
                    return Some(t);
                }
            }
        }
    }
    None
}

/// How far from the start of a file the `OriginalDocumentID` marker is
/// looked for.
pub const XMP_SCAN_LIMIT_BYTES: usize = 262144;

/// How many bytes after the marker are searched for the value.
pub const XMP_TAIL_WINDOW_BYTES: usize = 16384;

/// The marker text.
pub open spec fn doc_id_marker() -> Seq<u8> {
    seq![0x4Fu8, 0x72u8, 0x69u8, 0x67u8, 0x69u8, 0x6Eu8, 0x61u8, 0x6Cu8, 0x44u8, 0x6Fu8, 0x63u8,
        0x75u8, 0x6Du8, 0x65u8, 0x6Eu8, 0x74u8, 0x49u8, 0x44u8]
}

/// First position of the marker at or after `i`, or the length.
pub open spec fn find_marker(b: Seq<u8>, i: int) -> int
    decreases b.len() - i when 0 <= i
{
    if i + 18 > b.len() {
        b.len() as int
    } else if b.subrange(i, i + 18) == doc_id_marker() {
        i
    } else {
        find_marker(b, i + 1)
    }
}

/// The document id found in a file's bytes: the marker must lie wholly
/// within the scan window from the start of the file, and the value is
/// extracted from the tail window that follows it.
pub open spec fn doc_id_in_spec(b: Seq<u8>) -> Option<Seq<u8>> {
    let p = find_marker(b, 0);
    if p >= b.len() || p + 18 > XMP_SCAN_LIMIT_BYTES {
        None
    } else {
        let ts = p + 18;
        let te = if ts + XMP_TAIL_WINDOW_BYTES <= b.len() {
            ts + XMP_TAIL_WINDOW_BYTES
        } else {
            b.len() as int
        };
        doc_id_spec(b.subrange(ts, te))
    }
}

/// Scan a file's bytes for its XMP `OriginalDocumentID`. The marker must lie
/// wholly within the scan window; the value is read from the window that
/// follows it.
pub fn original_document_id_in(bytes: &[u8]) -> (r: Option<Vec<u8>>)
    ensures
        match r {
            Some(v) => doc_id_in_spec(bytes@) == Some(v@),
            None => doc_id_in_spec(bytes@) is None,
        },
{
    let blen = bytes.len();
    let marker: [u8; 18] = [0x4F, 0x72, 0x69, 0x67, 0x69, 0x6E, 0x61, 0x6C, 0x44, 0x6F, 0x63,
        0x75, 0x6D, 0x65, 0x6E, 0x74, 0x49, 0x44];
    proof {
        assert(marker@ =~= doc_id_marker());
    }
    let mut i: usize = 0;
    loop
        invariant
            0 <= i <= blen,
            blen == bytes@.len(),
            marker@ == doc_id_marker(),
            find_marker(bytes@, 0) == find_marker(bytes@, i as int),
        decreases blen - i,
    {
        if blen - i < 18 {
            proof {
                assert(find_marker(bytes@, i as int) == blen);
            }
            return None;
        }
        if crate::binutil::slices_eq_at(bytes, marker.as_slice(), i) {
            proof {
                assert(bytes@.subrange(i as int, i + 18) =~= doc_id_marker());
                assert(find_marker(bytes@, i as int) == i);
            }
            if i + 18 > XMP_SCAN_LIMIT_BYTES {
                return None;
            }
            let ts = i + 18;
            let te = if blen - ts >= XMP_TAIL_WINDOW_BYTES {
                ts + XMP_TAIL_WINDOW_BYTES
            } else {
                blen
            };
            let tail = vstd::slice::slice_subrange(bytes, ts, te);
            return extract_original_document_id(tail);
        }
        proof {
            assert(bytes@.subrange(i as int, i + 18) != doc_id_marker());
        }
        i += 1;
    }
}


/// Byte-wise lexicographic order on the UTF-8 encodings.
pub open spec fn lex_le(a: Seq<u8>, b: Seq<u8>) -> bool
    decreases a.len(),
{
    if a.len() == 0 {
        true
    } else if b.len() == 0 {
        false
    } else if a[0] < b[0] {
        true
    } else if a[0] > b[0] {
        false
    } else {
        lex_le(a.drop_first(), b.drop_first())
    }
}

/// The UTF-8 bytes of a string value.
pub open spec fn strb(s: String) -> Seq<u8> {
    vstd::utf8::encode_utf8(s@)
}

/// `v` equals (byte for byte) some element of `xs`.
pub open spec fn among(xs: Seq<String>, v: String) -> bool {
    exists|j: int| 0 <= j < xs.len() && strb(v) == strb(#[trigger] xs[j])
}

proof fn lemma_lex_le_refl(a: Seq<u8>)
    ensures
        lex_le(a, a),
    decreases a.len(),
{
    if a.len() > 0 {
        lemma_lex_le_refl(a.drop_first());
    }
}

proof fn lemma_lex_le_total(a: Seq<u8>, b: Seq<u8>)
    ensures
        lex_le(a, b) || lex_le(b, a),
    decreases a.len(),
{
    if a.len() > 0 && b.len() > 0 && a[0] == b[0] {
        lemma_lex_le_total(a.drop_first(), b.drop_first());
    }
}

/// Compare two byte strings lexicographically.
fn bytes_le(a: &[u8], b: &[u8]) -> (r: bool)
    ensures
        r == lex_le(a@, b@),
{
    let alen = a.len();
    let blen = b.len();
    let mut i: usize = 0;
    proof {
        assert(a@.skip(0) =~= a@);
        assert(b@.skip(0) =~= b@);
    }
    loop
        invariant
            0 <= i <= alen,
            i <= blen,
            alen == a@.len(),
            blen == b@.len(),
            lex_le(a@, b@) == lex_le(a@.skip(i as int), b@.skip(i as int)),
        decreases alen - i,
    {
        proof {
            if i < alen && i < blen {
                assert(a@.skip(i as int)[0] == a@[i as int]);
                assert(b@.skip(i as int)[0] == b@[i as int]);
                assert(a@.skip(i as int).drop_first() =~= a@.skip(i + 1));
                assert(b@.skip(i as int).drop_first() =~= b@.skip(i + 1));
            }
        }
        if i >= alen {
            proof {
                assert(a@.skip(i as int).len() == 0);
            }
            return true;
        }
        if i >= blen {
            proof {
                assert(b@.skip(i as int).len() == 0);
                assert(a@.skip(i as int).len() > 0);
            }
            return false;
        }
        if a[i] < b[i] {
            return true;
        }
        if a[i] > b[i] {
            return false;
        }
        i += 1;
    }
}

/// Candidate listings are sorted and deduplicated before they are shown:
/// the result is strictly increasing in byte order, every entry comes from
/// the input, and every input value appears in it.
pub fn sort_dedup_candidates(items: &Vec<String>) -> (r: Vec<String>)
    ensures
        forall|k: int|
            0 <= k < r@.len() - 1 ==> lex_le(strb(#[trigger] r@[k]), strb(r@[k + 1])) && strb(
                r@[k],
            ) != strb(r@[k + 1]),
        forall|k: int| 0 <= k < r@.len() ==> among(items@, #[trigger] r@[k]),
        forall|j: int| 0 <= j < items@.len() ==> among(r@, #[trigger] items@[j]),
{
    let mut out: Vec<String> = Vec::new();
    let mut n: usize = 0;
    while n < items.len()
        invariant
            0 <= n <= items@.len(),
            forall|k: int|
                0 <= k < out@.len() - 1 ==> lex_le(strb(#[trigger] out@[k]), strb(out@[k + 1]))
                    && strb(out@[k]) != strb(out@[k + 1]),
            forall|k: int| 0 <= k < out@.len() ==> among(items@, #[trigger] out@[k]),
            forall|j: int| 0 <= j < n ==> among(out@, #[trigger] items@[j]),
        decreases items@.len() - n,
    {
        let item = &items[n];
        // Find the first position whose entry is not below the new value.
        let mut p: usize = 0;
        loop
            invariant
                0 <= p <= out@.len(),
                forall|k: int| 0 <= k < p ==> !lex_le(strb(*item), strb(#[trigger] out@[k])),
            ensures
                0 <= p <= out@.len(),
                forall|k: int| 0 <= k < p ==> !lex_le(strb(*item), strb(#[trigger] out@[k])),
                p < out@.len() ==> lex_le(strb(*item), strb(out@[p as int])),
            decreases out@.len() - p,
        {
            if p >= out.len() {
                break;
            }
            if bytes_le(item.as_str().as_bytes(), out[p].as_str().as_bytes()) {
                break;
            }
            p += 1;
        }
        let duplicate = p < out.len() && crate::binutil::bytes_eq(
            item.as_str().as_bytes(),
            out[p].as_str().as_bytes(),
        );
        if duplicate {
            proof {
                assert(strb(items@[n as int]) == strb(out@[p as int]));
                assert(among(out@, items@[n as int]));
            }
            n += 1;
            continue;
        }
        let ghost before = out@;
        let ghost itemv = *item;
        out.insert(p, item.clone());
        proof {
            assert(strb(out@[p as int]) == strb(itemv));
            lemma_lex_le_refl(strb(itemv));
            if p > 0 {
                lemma_lex_le_total(strb(itemv), strb(before[p as int - 1]));
            }
            assert forall|k: int|
                0 <= k < out@.len() - 1 implies lex_le(strb(#[trigger] out@[k]), strb(out@[k + 1]))
                && strb(out@[k]) != strb(out@[k + 1]) by {
                if k < p as int - 1 {
                    assert(out@[k] == before[k] && out@[k + 1] == before[k + 1]);
                } else if k == p as int - 1 {
                    assert(out@[k] == before[k] && out@[k + 1] == itemv);
                    assert(!lex_le(strb(itemv), strb(before[k])));
                    if strb(before[k]) == strb(itemv) {
                        assert(lex_le(strb(itemv), strb(before[k])));
                    }
                } else if k == p {
                    assert(out@[k] == itemv && out@[k + 1] == before[k]);
                    if strb(itemv) == strb(before[k]) {
                        assert(false);
                    }
                } else {
                    assert(out@[k] == before[k - 1] && out@[k + 1] == before[k]);
                }
            }
            assert forall|k: int| 0 <= k < out@.len() implies among(
                items@,
                #[trigger] out@[k],
            ) by {
                if k < p {
                    assert(out@[k] == before[k]);
                    assert(among(items@, before[k]));
                } else if k == p {
                    assert(strb(out@[k]) == strb(items@[n as int]));
                    assert(among(items@, out@[k]));
                } else {
                    assert(out@[k] == before[k - 1]);
                    assert(among(items@, before[k - 1]));
                }
            }
            assert forall|j: int| 0 <= j < n + 1 implies among(out@, #[trigger] items@[j]) by {
                if j == n {
                    assert(strb(items@[j]) == strb(out@[p as int]));
                    assert(among(out@, items@[j]));
                } else {
                    assert(among(before, items@[j]));
                    let k0 = choose|k: int|
                        0 <= k < before.len() && strb(items@[j]) == strb(#[trigger] before[k]);
                    if k0 < p {
                        assert(out@[k0] == before[k0]);
                        assert(among(out@, items@[j]));
                    } else {
                        assert(out@[k0 + 1] == before[k0]);
                        assert(among(out@, items@[j]));
                    }
                }
            }
        }
        n += 1;
    }
    out
}

} // verus!
