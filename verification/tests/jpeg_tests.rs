use ultrahdr_bake::jpeg::{JpegDocument, JpegError, MARKER_APP0, MARKER_APP1};

/// A tiny synthetic JPEG: SOI, one APP0 segment, one APP1 segment, and a
/// short SOS tail.
fn synthetic_jpeg() -> Vec<u8> {
    let mut b: Vec<u8> = vec![0xFF, 0xD8];
    // APP0, 4 content bytes (length field = 6).
    b.extend_from_slice(&[0xFF, 0xE0, 0x00, 0x06, 0x4A, 0x46, 0x49, 0x46]);
    // APP1, 2 content bytes.
    b.extend_from_slice(&[0xFF, 0xE1, 0x00, 0x04, 0xAB, 0xCD]);
    // SOS and an entropy tail ending in EOI.
    b.extend_from_slice(&[0xFF, 0xDA, 0x00, 0x02, 0x11, 0x22, 0x33, 0xFF, 0xD9]);
    b
}

#[test]
fn parse_then_encode_is_identity() {
    let bytes = synthetic_jpeg();
    let doc = JpegDocument::parse(&bytes).unwrap();
    assert_eq!(doc.segments.len(), 2);
    assert_eq!(doc.segments[0].marker, MARKER_APP0);
    assert_eq!(doc.segments[0].contents, vec![0x4A, 0x46, 0x49, 0x46]);
    assert_eq!(doc.segments[1].marker, MARKER_APP1);
    let encoded = doc.encode();
    assert_eq!(encoded, bytes);
}

#[test]
fn parse_rejects_missing_soi() {
    assert_eq!(
        JpegDocument::parse(&[0x00, 0xD8]).unwrap_err(),
        JpegError::MissingSoi
    );
    assert_eq!(JpegDocument::parse(&[0xFF]).unwrap_err(), JpegError::MissingSoi);
}

#[test]
fn parse_rejects_truncated_and_bad_streams() {
    // SOI alone: no segment, no scan.
    assert_eq!(
        JpegDocument::parse(&[0xFF, 0xD8]).unwrap_err(),
        JpegError::Truncated
    );
    // Marker without the FF prefix.
    assert_eq!(
        JpegDocument::parse(&[0xFF, 0xD8, 0x00, 0xE0]).unwrap_err(),
        JpegError::BadMarkerPrefix
    );
    // Length field smaller than itself.
    assert_eq!(
        JpegDocument::parse(&[0xFF, 0xD8, 0xFF, 0xE0, 0x00, 0x01]).unwrap_err(),
        JpegError::BadLength
    );
    // Declared length runs past the end.
    assert_eq!(
        JpegDocument::parse(&[0xFF, 0xD8, 0xFF, 0xE0, 0x00, 0x30, 0x00]).unwrap_err(),
        JpegError::Truncated
    );
}

#[test]
fn parse_accepts_eoi_only_stream() {
    // A stream whose segment run ends at EOI instead of SOS.
    let bytes: Vec<u8> = vec![0xFF, 0xD8, 0xFF, 0xD9];
    let doc = JpegDocument::parse(&bytes).unwrap();
    assert_eq!(doc.segments.len(), 0);
    assert_eq!(doc.tail, vec![0xFF, 0xD9]);
    assert_eq!(doc.encode(), bytes);
}
