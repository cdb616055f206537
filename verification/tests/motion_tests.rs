use ultrahdr_bake::cli::MotionArgs;
use ultrahdr_bake::jpeg::JpegDocument;
use ultrahdr_bake::motion::{
    assemble_motion_photo, auto_detect_motion_pair, detect_media_kind, find_mpf_offset_bytes,
    resolve_inputs, take_existing_xmp, upsert_xmp, MediaKind, MotionError, MotionPlan,
    MotionResolveError,
};
use ultrahdr_bake::mpf::{build_mpf_payload, parse_mpf_payload};

fn motion_args(
    photo: Option<&str>,
    video: Option<&str>,
    inputs: &[&str],
    ts: u64,
) -> MotionArgs {
    MotionArgs {
        photo: photo.map(|s| s.to_string()),
        video: video.map(|s| s.to_string()),
        inputs: inputs.iter().map(|s| s.to_string()).collect(),
        out: None,
        presentation_timestamp_us: ts,
    }
}

#[test]
fn motion_resolve_prefers_explicit_flags() {
    let plan = resolve_inputs(&motion_args(Some("p.jpg"), Some("v.mp4"), &[], 0)).unwrap();
    match plan {
        MotionPlan::Explicit(p) => {
            assert_eq!(p.photo, "p.jpg");
            assert_eq!(p.video, "v.mp4");
        }
        _ => panic!("expected the explicit pair"),
    }
    let err = resolve_inputs(&motion_args(Some("p.jpg"), None, &[], 0)).unwrap_err();
    assert_eq!(err, MotionResolveError::ProvideBothRoles);
    let err =
        resolve_inputs(&motion_args(Some("p.jpg"), Some("v.mp4"), &["x.jpg"], 0)).unwrap_err();
    assert_eq!(err, MotionResolveError::FlagsWithPositionals);
    let err = resolve_inputs(&motion_args(None, None, &["a"], 0)).unwrap_err();
    assert_eq!(err, MotionResolveError::ProvideTwoInputs);
    let plan = resolve_inputs(&motion_args(None, None, &["a.bin", "b.bin"], 0)).unwrap();
    assert!(matches!(plan, MotionPlan::Detect(a, b) if a == "a.bin" && b == "b.bin"));
}

#[test]
fn media_kind_by_extension_and_signature() {
    assert_eq!(
        detect_media_kind(Some(b"JPG"), &[]).unwrap(),
        MediaKind::Jpeg
    );
    assert_eq!(
        detect_media_kind(Some(b"jpeg"), &[]).unwrap(),
        MediaKind::Jpeg
    );
    assert_eq!(detect_media_kind(Some(b"MoV"), &[]).unwrap(), MediaKind::Mp4);
    assert_eq!(detect_media_kind(Some(b"qt"), &[]).unwrap(), MediaKind::Mp4);
    // Unknown extension falls back to the signature sniff.
    assert_eq!(
        detect_media_kind(Some(b"bin"), &[0xFF, 0xD8, 0xFF, 0xE0]).unwrap(),
        MediaKind::Jpeg
    );
    assert_eq!(
        detect_media_kind(None, b"\x00\x00\x00\x20ftypisom").unwrap(),
        MediaKind::Mp4
    );
    let err = detect_media_kind(None, b"plain text").unwrap_err();
    assert_eq!(err, MotionResolveError::UnrecognizedMedia);
}

#[test]
fn motion_auto_detection_assigns_roles() {
    let p = auto_detect_motion_pair("a", "b", MediaKind::Jpeg, MediaKind::Mp4).unwrap();
    assert_eq!((p.photo.as_str(), p.video.as_str()), ("a", "b"));
    let p = auto_detect_motion_pair("a", "b", MediaKind::Mp4, MediaKind::Jpeg).unwrap();
    assert_eq!((p.photo.as_str(), p.video.as_str()), ("b", "a"));
    assert_eq!(
        auto_detect_motion_pair("a", "b", MediaKind::Jpeg, MediaKind::Jpeg).unwrap_err(),
        MotionResolveError::BothJpeg
    );
    assert_eq!(
        auto_detect_motion_pair("a", "b", MediaKind::Mp4, MediaKind::Mp4).unwrap_err(),
        MotionResolveError::BothMp4
    );
}

/// A synthetic JPEG with an APP0 header, an old XMP APP1 segment, and a tail.
fn photo_with_xmp() -> Vec<u8> {
    let mut b: Vec<u8> = vec![0xFF, 0xD8];
    b.extend_from_slice(&[0xFF, 0xE0, 0x00, 0x06, 0x4A, 0x46, 0x49, 0x46]);
    let xmp_body = "<x:xmpmeta xmlns:x=\"adobe:ns:meta/\"><rdf:RDF xmlns:rdf=\"http://www.w3.org/1999/02/22-rdf-syntax-ns#\"><rdf:Description keep:Me=\"yes\"></rdf:Description></rdf:RDF></x:xmpmeta>";
    let mut contents: Vec<u8> = b"http://ns.adobe.com/xap/1.0/\0".to_vec();
    contents.extend_from_slice(xmp_body.as_bytes());
    let len = (contents.len() + 2) as u16;
    b.extend_from_slice(&[0xFF, 0xE1]);
    b.extend_from_slice(&len.to_be_bytes());
    b.extend_from_slice(&contents);
    b.extend_from_slice(&[0xFF, 0xDA, 0x00, 0x02, 0x01, 0x02, 0x03, 0xFF, 0xD9]);
    b
}

#[test]
fn take_and_upsert_xmp_round_trip() {
    let bytes = photo_with_xmp();
    let mut doc = JpegDocument::parse(&bytes).unwrap();
    assert_eq!(doc.segments.len(), 2);
    let body = take_existing_xmp(&mut doc).unwrap();
    assert!(body.starts_with(b"<x:xmpmeta"));
    assert_eq!(doc.segments.len(), 1);
    let pos = upsert_xmp(&mut doc, &body);
    assert_eq!(pos, 1);
    assert_eq!(doc.segments.len(), 2);
    assert_eq!(doc.encode(), bytes);
}

#[test]
fn plain_motion_embeds_video_and_fixes_lengths() {
    let photo = photo_with_xmp();
    let video = b"ftyp-flavoured fake video payload".to_vec();
    let (out, meta) = assemble_motion_photo(&photo, &video, false, 77).unwrap();
    // The clip sits at the end, at the offset the metadata declares.
    assert!(out.ends_with(&video));
    assert_eq!(meta.video_len, video.len());
    assert_eq!(meta.gainmap_len, None);
    assert_eq!(meta.presentation_timestamp_us, 77);
    assert_eq!(meta.primary_len, out.len() - video.len());
    let primary = &out[..meta.primary_len];
    let text = String::from_utf8_lossy(primary);
    // The fixed point converged: the declared primary length matches the
    // real one, and the old description still rides along.
    assert!(text.contains(&format!("Item:Length=\"{}\"", meta.primary_len)));
    assert!(text.contains("keep:Me=\"yes\""));
    assert!(text.contains("GCamera:MotionPhotoPresentationTimestampUs=\"77\""));
    // The primary is still a JPEG that re-encodes to itself.
    let reparsed = JpegDocument::parse(primary).unwrap();
    assert_eq!(reparsed.encode(), primary);
}

/// A synthetic UltraHDR-style JPEG: APP0, an MPF APP2 segment, and a tail
/// followed by `gm_len` bytes standing in for the appended gain-map image.
fn ultrahdr_photo(gm_len: usize) -> Vec<u8> {
    let mut b: Vec<u8> = vec![0xFF, 0xD8];
    b.extend_from_slice(&[0xFF, 0xE0, 0x00, 0x06, 0x4A, 0x46, 0x49, 0x46]);
    let mpf = build_mpf_payload(1000, gm_len, 500).unwrap();
    let len = (mpf.len() + 2) as u16;
    b.extend_from_slice(&[0xFF, 0xE2]);
    b.extend_from_slice(&len.to_be_bytes());
    b.extend_from_slice(&mpf);
    b.extend_from_slice(&[0xFF, 0xDA, 0x00, 0x02, 0x01, 0x02, 0x03, 0xFF, 0xD9]);
    for i in 0..gm_len {
        b.push((i % 251) as u8);
    }
    b
}

#[test]
fn ultrahdr_motion_patches_mpf_offsets() {
    let gm_len = 64usize;
    let photo = ultrahdr_photo(gm_len);
    let video = b"0123456789 fake mp4 bytes".to_vec();
    let (out, meta) = assemble_motion_photo(&photo, &video, true, 0).unwrap();
    assert!(out.ends_with(&video));
    assert_eq!(meta.gainmap_len, Some(gm_len));
    let primary_total = out.len() - video.len();
    assert_eq!(meta.primary_len, primary_total - gm_len);
    // Locate the rewritten MPF table and check the self-referential offsets.
    let sig_pos = find_mpf_offset_bytes(&out).unwrap();
    let tiff_base = sig_pos + 4;
    let payload = &out[sig_pos..sig_pos + 86];
    let info = parse_mpf_payload(payload).unwrap();
    assert_eq!(info.primary_size, meta.primary_len);
    assert_eq!(info.secondary_size, gm_len);
    // The secondary offset stored in entry 1 (big-endian at payload offset
    // 78) is exactly primary_len - tiff_base.
    let off = u32::from_be_bytes([payload[78], payload[79], payload[80], payload[81]]) as usize;
    assert_eq!(off, meta.primary_len - tiff_base);
    // Reading the video bytes back from the declared offset reproduces them.
    assert_eq!(&out[meta.primary_len + gm_len..], &video[..]);
}

#[test]
fn ultrahdr_motion_requires_mpf_segment() {
    let photo = photo_with_xmp();
    let video = b"clip".to_vec();
    let err = assemble_motion_photo(&photo, &video, true, 0).unwrap_err();
    assert_eq!(err, MotionError::MpfSegmentMissing);
}

#[test]
fn assemble_rejects_invalid_jpeg() {
    let err = assemble_motion_photo(b"not a jpeg", b"clip", false, 0).unwrap_err();
    assert!(matches!(err, MotionError::InvalidJpeg(_)));
}

/// A photo whose existing XMP packet is too large to carry any addition in
/// one APP1 segment once the directory is injected.
#[test]
fn oversized_xmp_is_rejected() {
    let mut b: Vec<u8> = vec![0xFF, 0xD8];
    // An XMP segment at the 65533-byte content ceiling: the merged packet
    // cannot fit back into one segment.
    let mut body: Vec<u8> = b"<x:xmpmeta><rdf:RDF>".to_vec();
    let filler_len = 65533 - 29 - b"<x:xmpmeta><rdf:RDF></rdf:RDF></x:xmpmeta>".len();
    body.extend(std::iter::repeat(b'x').take(filler_len));
    body.extend_from_slice(b"</rdf:RDF></x:xmpmeta>");
    let mut contents: Vec<u8> = b"http://ns.adobe.com/xap/1.0/\0".to_vec();
    contents.extend_from_slice(&body);
    assert_eq!(contents.len(), 65533);
    let len = (contents.len() + 2) as u16;
    b.extend_from_slice(&[0xFF, 0xE1]);
    b.extend_from_slice(&len.to_be_bytes());
    b.extend_from_slice(&contents);
    b.extend_from_slice(&[0xFF, 0xDA, 0x00, 0x02, 0xFF, 0xD9]);
    let err = assemble_motion_photo(&b, b"clip", false, 0).unwrap_err();
    assert_eq!(err, MotionError::XmpTooLarge);
}

/// An MPF table claiming a secondary image larger than the whole stream.
#[test]
fn oversized_secondary_is_rejected() {
    let mut b: Vec<u8> = vec![0xFF, 0xD8];
    let mpf = build_mpf_payload(1000, 1_000_000, 0).unwrap();
    let len = (mpf.len() + 2) as u16;
    b.extend_from_slice(&[0xFF, 0xE2]);
    b.extend_from_slice(&len.to_be_bytes());
    b.extend_from_slice(&mpf);
    b.extend_from_slice(&[0xFF, 0xDA, 0x00, 0x02, 0xFF, 0xD9]);
    let err = assemble_motion_photo(&b, b"clip", true, 0).unwrap_err();
    assert_eq!(err, MotionError::PrimaryLenUnderflow);
}

/// An UltraHDR-style photo that also carries a prior XMP packet: the merge
/// keeps its unrelated description and the fresh directory lists all three
/// items.
#[test]
fn ultrahdr_motion_merges_prior_xmp() {
    let gm_len = 32usize;
    let mut b: Vec<u8> = vec![0xFF, 0xD8];
    b.extend_from_slice(&[0xFF, 0xE0, 0x00, 0x06, 0x4A, 0x46, 0x49, 0x46]);
    let xmp_body = "<x:xmpmeta xmlns:x=\"adobe:ns:meta/\"><rdf:RDF xmlns:rdf=\"http://www.w3.org/1999/02/22-rdf-syntax-ns#\"><rdf:Description keep:Me=\"yes\"></rdf:Description></rdf:RDF></x:xmpmeta>";
    let mut contents: Vec<u8> = b"http://ns.adobe.com/xap/1.0/\0".to_vec();
    contents.extend_from_slice(xmp_body.as_bytes());
    let len = (contents.len() + 2) as u16;
    b.extend_from_slice(&[0xFF, 0xE1]);
    b.extend_from_slice(&len.to_be_bytes());
    b.extend_from_slice(&contents);
    let mpf = build_mpf_payload(1000, gm_len, 500).unwrap();
    let len = (mpf.len() + 2) as u16;
    b.extend_from_slice(&[0xFF, 0xE2]);
    b.extend_from_slice(&len.to_be_bytes());
    b.extend_from_slice(&mpf);
    b.extend_from_slice(&[0xFF, 0xDA, 0x00, 0x02, 0x01, 0x02, 0x03, 0xFF, 0xD9]);
    for i in 0..gm_len {
        b.push((i % 251) as u8);
    }
    let video = b"mp4 bytes".to_vec();
    let (out, meta) = assemble_motion_photo(&b, &video, true, 9).unwrap();
    let primary = &out[..out.len() - video.len()];
    let text = String::from_utf8_lossy(primary);
    assert!(text.contains("keep:Me=\"yes\""));
    assert!(text.contains("Item:Semantic=\"GainMap\""));
    assert!(text.contains(&format!("Item:Length=\"{}\"", gm_len)));
    assert!(text.contains(&format!("Item:Length=\"{}\"", meta.primary_len)));
    assert_eq!(meta.gainmap_len, Some(gm_len));
}
