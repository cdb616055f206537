use ultrahdr_bake::mpf::{build_mpf_payload, parse_mpf_payload, MpfError};

#[test]
fn mpf_round_trip_preserves_sizes() {
    // A payload for a 100000-byte primary and a 20000-byte secondary
    // re-parses to the same sizes and declares exactly two images.
    let payload = build_mpf_payload(100000, 20000, 12345).unwrap();
    assert_eq!(payload.len(), 86);
    // The image-count tag value (offset 34, big-endian) declares two images.
    assert_eq!(&payload[34..38], &[0, 0, 0, 2]);
    let info = parse_mpf_payload(&payload).unwrap();
    assert_eq!(info.primary_size, 100000);
    assert_eq!(info.secondary_size, 20000);
}

#[test]
fn mpf_build_rejects_oversized_values() {
    let err = build_mpf_payload(usize::MAX, 20, 0).unwrap_err();
    assert_eq!(err, MpfError::ValueTooLarge);
}

#[test]
fn mpf_parse_rejects_malformed_payloads() {
    assert_eq!(parse_mpf_payload(&[0u8; 4]).unwrap_err(), MpfError::TooShort);
    assert_eq!(
        parse_mpf_payload(&[0u8; 16]).unwrap_err(),
        MpfError::MissingSignature
    );
    let mut bad_endian = build_mpf_payload(10, 20, 0).unwrap();
    bad_endian[4] = 0x00;
    assert_eq!(
        parse_mpf_payload(&bad_endian).unwrap_err(),
        MpfError::UnknownEndianness
    );
    // Rewrite the image count to one: the secondary image is missing.
    let mut one_image = build_mpf_payload(10, 20, 0).unwrap();
    one_image[34..38].copy_from_slice(&[0, 0, 0, 1]);
    assert_eq!(
        parse_mpf_payload(&one_image).unwrap_err(),
        MpfError::MissingSecondary
    );
}

#[test]
fn mpf_parse_reads_little_endian_tables() {
    // Hand-built little-endian payload: signature, II marker, IFD at 8,
    // two tags (count and inline-sized entries).
    let mut p: Vec<u8> = Vec::new();
    p.extend_from_slice(b"MPF\0");
    p.extend_from_slice(&[0x49, 0x49, 0x2A, 0x00]);
    p.extend_from_slice(&8u32.to_le_bytes());
    p.extend_from_slice(&2u16.to_le_bytes());
    // NumberOfImages = 2.
    p.extend_from_slice(&0xB001u16.to_le_bytes());
    p.extend_from_slice(&4u16.to_le_bytes());
    p.extend_from_slice(&1u32.to_le_bytes());
    p.extend_from_slice(&2u32.to_le_bytes());
    // MPEntry, type undefined, 32 bytes at offset 34 from the TIFF base.
    p.extend_from_slice(&0xB002u16.to_le_bytes());
    p.extend_from_slice(&7u16.to_le_bytes());
    p.extend_from_slice(&32u32.to_le_bytes());
    p.extend_from_slice(&34u32.to_le_bytes());
    // Two 16-byte entries: sizes 111 and 222.
    p.extend_from_slice(&0u32.to_le_bytes());
    p.extend_from_slice(&111u32.to_le_bytes());
    p.extend_from_slice(&0u32.to_le_bytes());
    p.extend_from_slice(&[0, 0, 0, 0]);
    p.extend_from_slice(&0u32.to_le_bytes());
    p.extend_from_slice(&222u32.to_le_bytes());
    p.extend_from_slice(&0u32.to_le_bytes());
    p.extend_from_slice(&[0, 0, 0, 0]);
    let info = parse_mpf_payload(&p).unwrap();
    assert_eq!(info.primary_size, 111);
    assert_eq!(info.secondary_size, 222);
}
