use ultrahdr_bake::motion::MotionMeta;
use ultrahdr_bake::xmp::{build_fresh_xmp, build_motion_xmp, merge_into_existing_xmp, XmpError};

fn meta(primary: usize, gainmap: Option<usize>, video: usize, ts: u64) -> MotionMeta {
    MotionMeta {
        primary_len: primary,
        gainmap_len: gainmap,
        video_len: video,
        presentation_timestamp_us: ts,
    }
}

fn count_occurrences(hay: &[u8], needle: &[u8]) -> usize {
    if needle.is_empty() || hay.len() < needle.len() {
        return 0;
    }
    let mut n = 0;
    for i in 0..=(hay.len() - needle.len()) {
        if &hay[i..i + needle.len()] == needle {
            n += 1;
        }
    }
    n
}

#[test]
fn fresh_xmp_lists_all_items() {
    let out = build_fresh_xmp(&meta(1234, Some(567), 89, 42));
    let text = String::from_utf8(out).unwrap();
    let expected = "<x:xmpmeta xmlns:x=\"adobe:ns:meta/\"><rdf:RDF xmlns:rdf=\"http://www.w3.org/1999/02/22-rdf-syntax-ns#\"><rdf:Description xmlns:GCamera=\"http://ns.google.com/photos/1.0/camera/\" xmlns:Container=\"http://ns.google.com/photos/1.0/container/\" xmlns:Item=\"http://ns.google.com/photos/1.0/container/item/\" GCamera:MotionPhoto=\"1\" GCamera:MotionPhotoVersion=\"1\" GCamera:MotionPhotoPresentationTimestampUs=\"42\"><Container:Directory><rdf:Seq><rdf:li rdf:parseType=\"Resource\"><Container:Item Item:Mime=\"image/jpeg\" Item:Semantic=\"Primary\" Item:Length=\"1234\" Item:Padding=\"0\"/></rdf:li><rdf:li rdf:parseType=\"Resource\"><Container:Item Item:Mime=\"image/jpeg\" Item:Semantic=\"GainMap\" Item:Length=\"567\" Item:Padding=\"0\"/></rdf:li><rdf:li rdf:parseType=\"Resource\"><Container:Item Item:Mime=\"video/mp4\" Item:Semantic=\"MotionPhoto\" Item:Length=\"89\" Item:Padding=\"0\"/></rdf:li></rdf:Seq></Container:Directory></rdf:Description></rdf:RDF></x:xmpmeta>";
    assert_eq!(text, expected);
}

#[test]
fn fresh_xmp_omits_gainmap_item_when_absent() {
    let out = build_fresh_xmp(&meta(10, None, 20, 0));
    let text = String::from_utf8(out).unwrap();
    assert!(!text.contains("GainMap"));
    assert!(text.contains("Item:Semantic=\"Primary\""));
    assert!(text.contains("Item:Semantic=\"MotionPhoto\""));
}

#[test]
fn merge_injects_before_rdf_close_and_drops_old_directory() {
    let existing = "<x:xmpmeta xmlns:x=\"adobe:ns:meta/\"><rdf:RDF xmlns:rdf=\"http://www.w3.org/1999/02/22-rdf-syntax-ns#\"><rdf:Description custom:Attr=\"keep\"><Container:Directory><rdf:Seq><rdf:li rdf:parseType=\"Resource\"><Container:Item Item:Mime=\"video/mp4\" Item:Semantic=\"MotionPhoto\" Item:Length=\"1\" Item:Padding=\"0\"/></rdf:li></rdf:Seq></Container:Directory></rdf:Description></rdf:RDF></x:xmpmeta>"
    .as_bytes()
    .to_vec();
    let merged = merge_into_existing_xmp(&existing, &meta(100, None, 200, 7)).unwrap();
    let text = String::from_utf8(merged).unwrap();
    // Unrelated content passes through.
    assert!(text.contains("custom:Attr=\"keep\""));
    // The old directory is gone; the fresh one lists the new lengths.
    assert_eq!(count_occurrences(text.as_bytes(), b"<Container:Directory>"), 1);
    assert!(text.contains("Item:Length=\"100\""));
    assert!(!text.contains("Item:Length=\"1\" "));
}

#[test]
fn merge_twice_keeps_one_motion_photo_item() {
    let first = build_fresh_xmp(&meta(1000, Some(50), 300, 5));
    let second = merge_into_existing_xmp(&first, &meta(1000, Some(50), 300, 5)).unwrap();
    let third = merge_into_existing_xmp(&second, &meta(1000, Some(50), 300, 5)).unwrap();
    assert_eq!(
        count_occurrences(&third, b"Item:Semantic=\"MotionPhoto\""),
        1
    );
    assert_eq!(count_occurrences(&second, b"Item:Semantic=\"MotionPhoto\""), 1);
}

#[test]
fn merge_without_rdf_anchor_fails_and_falls_back() {
    let existing = b"<x:xmpmeta>plain</x:xmpmeta>".to_vec();
    let err = merge_into_existing_xmp(&existing, &meta(1, None, 2, 0)).unwrap_err();
    assert_eq!(err, XmpError::MissingRdfAnchor);
    // build_motion_xmp falls back to a fresh packet.
    let out = build_motion_xmp(Some(&existing), &meta(1, None, 2, 0));
    let fresh = build_fresh_xmp(&meta(1, None, 2, 0));
    assert_eq!(out, fresh);
}

#[test]
fn merge_reports_unclosed_tags() {
    let existing = b"<rdf:RDF><broken".to_vec();
    let err = merge_into_existing_xmp(&existing, &meta(1, None, 2, 0)).unwrap_err();
    assert_eq!(err, XmpError::UnclosedTag);
}
