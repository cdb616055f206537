use ultrahdr_bake::cli::BakeArgs;
use ultrahdr_bake::detect::{
    auto_detect_pair, classify_probe_outcome, decide_sibling_matches,
    extract_original_document_id, original_document_id_in, resolve_inputs, HdrDetection,
    ResolveError, ResolvePlan,
};
use ultrahdr_bake::error::{Error, ErrorCode};
use ultrahdr_bake::detect::sort_dedup_candidates;
use ultrahdr_bake::paths::{default_motion_out, default_out_for_sdr};

fn bake_args(inputs: &[&str], hdr: Option<&str>, sdr: Option<&str>) -> BakeArgs {
    BakeArgs {
        inputs: inputs.iter().map(|s| s.to_string()).collect(),
        hdr: hdr.map(|s| s.to_string()),
        sdr: sdr.map(|s| s.to_string()),
        out: None,
        base_quality: 95,
        gainmap_quality: 95,
        gainmap_scale: 1,
        multichannel_gainmap: false,
    }
}

#[test]
fn bake_resolution_dispatches_on_arguments() {
    let plan = resolve_inputs(&bake_args(&[], Some("h.jpg"), Some("s.jpg"))).unwrap();
    assert!(matches!(plan, ResolvePlan::Explicit(p) if p.hdr == "h.jpg" && p.sdr == "s.jpg"));
    assert_eq!(
        resolve_inputs(&bake_args(&[], Some("h.jpg"), None)).unwrap_err(),
        ResolveError::ProvideBothRoles
    );
    let plan = resolve_inputs(&bake_args(&["seed.jpg"], None, None)).unwrap();
    assert!(matches!(plan, ResolvePlan::SeedScan(s) if s == "seed.jpg"));
    let plan = resolve_inputs(&bake_args(&["a.jpg", "b.jpg"], None, None)).unwrap();
    assert!(matches!(plan, ResolvePlan::Probe(a, b) if a == "a.jpg" && b == "b.jpg"));
    assert_eq!(
        resolve_inputs(&bake_args(&[], None, None)).unwrap_err(),
        ResolveError::ProvideInputs
    );
    assert_eq!(
        resolve_inputs(&bake_args(&["a", "b", "c"], None, None)).unwrap_err(),
        ResolveError::ProvideInputs
    );
}

#[test]
fn auto_detection_is_exclusive() {
    let found = Some(HdrDetection::ProbeGainMapMetadata);
    // probe(a) positive, probe(b) negative: a is the HDR input.
    let (p, why) = auto_detect_pair("a.jpg", "b.jpg", found, None).unwrap();
    assert_eq!((p.hdr.as_str(), p.sdr.as_str()), ("a.jpg", "b.jpg"));
    assert_eq!(why.as_str(), "libuhdr probe found gain map metadata");
    // The mirror case assigns the roles the other way round.
    let (p, _) = auto_detect_pair("a.jpg", "b.jpg", None, found).unwrap();
    assert_eq!((p.hdr.as_str(), p.sdr.as_str()), ("b.jpg", "a.jpg"));
    // Both positive and both negative are distinct failures.
    assert_eq!(
        auto_detect_pair("a.jpg", "b.jpg", found, found).unwrap_err(),
        ResolveError::BothLookUltraHdr
    );
    assert_eq!(
        auto_detect_pair("a.jpg", "b.jpg", None, None).unwrap_err(),
        ResolveError::NoGainMapMetadata
    );
    assert!(auto_detect_pair("a", "b", found, found)
        .unwrap_err()
        .message()
        .contains("Both inputs look like UltraHDR"));
    assert!(auto_detect_pair("a", "b", None, None)
        .unwrap_err()
        .message()
        .contains("Could not find ISO 21496 gain map metadata"));
}

#[test]
fn probe_classification_distinguishes_absence_from_failure() {
    assert_eq!(
        classify_probe_outcome(Ok(true)).unwrap(),
        Some(HdrDetection::ProbeGainMapMetadata)
    );
    assert_eq!(classify_probe_outcome(Ok(false)).unwrap(), None);
    // Invalid parameter means "not a gain-map JPEG": a normal outcome.
    let invalid = Error {
        code: ErrorCode::InvalidParam,
        detail: None,
    };
    assert_eq!(classify_probe_outcome(Err(invalid)).unwrap(), None);
    // Every other code propagates as a hard failure.
    let mem = Error {
        code: ErrorCode::MemError,
        detail: None,
    };
    let err = classify_probe_outcome(Err(mem)).unwrap_err();
    assert_eq!(err.code, ErrorCode::MemError);
}

#[test]
fn sibling_decision_requires_exactly_one_match() {
    assert_eq!(
        decide_sibling_matches(&vec![]).unwrap_err(),
        ResolveError::NoSiblingFound
    );
    assert_eq!(
        decide_sibling_matches(&vec!["m.jpg".to_string()]).unwrap(),
        "m.jpg"
    );
    assert_eq!(
        decide_sibling_matches(&vec!["a".to_string(), "b".to_string()]).unwrap_err(),
        ResolveError::MultipleSiblings
    );
}

#[test]
fn document_id_extraction_handles_both_forms() {
    // Element form.
    assert_eq!(
        extract_original_document_id(b">ABC123</xmpMM:OriginalDocumentID>"),
        Some(b"ABC123".to_vec())
    );
    // Attribute form.
    assert_eq!(
        extract_original_document_id(b"=\"XYZ\" other=\"1\""),
        Some(b"XYZ".to_vec())
    );
    // Marker with neither a following `>` nor `=`.
    assert_eq!(extract_original_document_id(b" nothing here"), None);
    // Whitespace is trimmed; an empty value does not count.
    assert_eq!(
        extract_original_document_id(b">  padded \n</x>"),
        Some(b"padded".to_vec())
    );
    assert_eq!(extract_original_document_id(b">   </x>"), None);
}

#[test]
fn document_id_scan_finds_marker_in_window() {
    let mut buf = vec![b'x'; 5000];
    let insert = b"<xmpMM:OriginalDocumentID>ABC123</xmpMM:OriginalDocumentID>";
    buf.splice(4000..4000, insert.iter().copied());
    assert_eq!(original_document_id_in(&buf), Some(b"ABC123".to_vec()));
    // Attribute form at an arbitrary position.
    let mut buf = vec![b'y'; 300];
    buf.splice(100..100, b"OriginalDocumentID=\"XYZ\"".iter().copied());
    assert_eq!(original_document_id_in(&buf), Some(b"XYZ".to_vec()));
    // No marker at all.
    assert_eq!(original_document_id_in(&vec![b'z'; 100]), None);
}

#[test]
fn default_output_names_follow_the_input() {
    assert_eq!(
        default_out_for_sdr(b"dir/photo.jpg"),
        b"dir/photo-merge.jpg".to_vec()
    );
    assert_eq!(default_out_for_sdr(b"photo.jpeg"), b"photo-merge.jpeg".to_vec());
    assert_eq!(default_out_for_sdr(b"noext"), b"noext-merge.jpg".to_vec());
    assert_eq!(
        default_motion_out(b"/a/b/still.jpg"),
        b"/a/b/still-motion.jpg".to_vec()
    );
}

#[test]
fn candidate_listing_is_sorted_and_deduplicated() {
    let items = vec![
        "b.jpg".to_string(),
        "a.jpg".to_string(),
        "b.jpg".to_string(),
        "c.jpg".to_string(),
        "a.jpg".to_string(),
    ];
    let out = sort_dedup_candidates(&items);
    assert_eq!(out, vec!["a.jpg", "b.jpg", "c.jpg"]);
    assert!(sort_dedup_candidates(&vec![]).is_empty());
}

#[test]
fn document_id_scan_window_is_bounded() {
    // A marker that ends exactly at the window boundary is accepted...
    let insert = b"OriginalDocumentID=\"IN\"";
    let mut buf = vec![b'x'; 270000];
    let start = 262144 - 18;
    buf.splice(start..start + insert.len(), insert.iter().copied());
    assert_eq!(original_document_id_in(&buf), Some(b"IN".to_vec()));
    // ... one byte later it straddles the boundary and is ignored.
    let mut buf = vec![b'x'; 270000];
    let start = 262144 - 17;
    buf.splice(start..start + insert.len(), insert.iter().copied());
    assert_eq!(original_document_id_in(&buf), None);
}
