//! Multi-Picture-Format (MPF) codec: parsing and rewriting of the TIFF-like
//! tag table that an UltraHDR JPEG carries in an APP2 segment.
//!
//! The payload is the `MPF\0` signature, a TIFF header that declares the
//! endianness, and an IFD whose tags of interest are the image count
//! (`0xB001`) and the MPEntry array (`0xB002`, 16-byte records of attribute,
//! size, offset and two dependent-image indices). Offsets inside the payload
//! are relative to the TIFF base, four bytes into the payload.

use vstd::prelude::*;

use crate::binutil::{be16, be32, le16, le32, lemma_be16_roundtrip, lemma_be32_roundtrip,
    read_u16_be, read_u16_le, read_u32_be, read_u32_le, u16_be_bytes, u32_be_bytes};

verus! {

/// Sizes recovered from an MPF payload: entry 0 is the primary image, entry 1
/// the secondary (gain map) image.
#[derive(Debug, Clone)]
pub struct MpfInfo {
    /// Index of the carrying APP2 segment within the enclosing document.
    pub segment_index: usize,
    /// Byte size of the primary image (entry 0).
    pub primary_size: usize,
    /// Byte size of the secondary image (entry 1).
    pub secondary_size: usize,
}

/// Why an MPF payload was rejected.
#[derive(Clone, Copy, Debug, PartialEq, Eq, Structural)]
pub enum MpfError {
    /// Payload shorter than signature plus TIFF header.
    TooShort,
    /// Payload does not begin with `MPF\0`.
    MissingSignature,
    /// TIFF header declares neither big- nor little-endian byte order.
    UnknownEndianness,
    /// IFD position does not fit the address space.
    IfdOffsetOverflow,
    /// A tag-table read fell outside the payload.
    ReadOutOfBounds,
    /// The MPEntry tag does not have the `undefined` type.
    EntryTypeUnexpected,
    /// MPEntry data position does not fit the address space.
    EntryOffsetOverflow,
    /// No image-count tag in the IFD.
    MissingImageCount,
    /// No MPEntry tag in the IFD.
    MissingEntryOffset,
    /// MPEntry array falls outside the payload.
    EntriesOutOfBounds,
    /// MPEntry array shorter than sixteen bytes per declared image.
    EntriesTooShort,
    /// Fewer than two images: no secondary image to patch.
    MissingSecondary,
    /// A size does not fit in the 32-bit field that holds it.
    ValueTooLarge,
}

/// The description text of each MPF failure.
#[verifier::opaque]
pub open spec fn mpf_error_text(e: MpfError) -> Seq<char> {
    match e {
        MpfError::TooShort => "MPF payload too short"@,
        MpfError::MissingSignature => "MPF payload missing signature"@,
        MpfError::UnknownEndianness => "MPF payload has unknown endianness"@,
        MpfError::IfdOffsetOverflow => "MPF IFD offset overflow"@,
        MpfError::ReadOutOfBounds => "MPF tag table read out of bounds"@,
        MpfError::EntryTypeUnexpected => "MPF MPEntry tag has unexpected type"@,
        MpfError::EntryOffsetOverflow => "MPF MPEntry offset overflow"@,
        MpfError::MissingImageCount => "MPF missing image count tag"@,
        MpfError::MissingEntryOffset => "MPF missing MPEntry offset"@,
        MpfError::EntriesOutOfBounds => "MPF entries out of bounds"@,
        MpfError::EntriesTooShort => "MPF entries too short"@,
        MpfError::MissingSecondary => "MPF entries missing secondary image"@,
        MpfError::ValueTooLarge => "MPF size or offset too large for u32"@,
    }
}

impl MpfError {
    /// A short description of the failure.
    pub fn message(&self) -> (r: &'static str)
        ensures
            r@ == mpf_error_text(*self),
    {
        proof {
            reveal(mpf_error_text);
        }
        match self {
            MpfError::TooShort => "MPF payload too short",
            MpfError::MissingSignature => "MPF payload missing signature",
            MpfError::UnknownEndianness => "MPF payload has unknown endianness",
            MpfError::IfdOffsetOverflow => "MPF IFD offset overflow",
            MpfError::ReadOutOfBounds => "MPF tag table read out of bounds",
            MpfError::EntryTypeUnexpected => "MPF MPEntry tag has unexpected type",
            MpfError::EntryOffsetOverflow => "MPF MPEntry offset overflow",
            MpfError::MissingImageCount => "MPF missing image count tag",
            MpfError::MissingEntryOffset => "MPF missing MPEntry offset",
            MpfError::EntriesOutOfBounds => "MPF entries out of bounds",
            MpfError::EntriesTooShort => "MPF entries too short",
            MpfError::MissingSecondary => "MPF entries missing secondary image",
            MpfError::ValueTooLarge => "MPF size or offset too large for u32",
        }
    }
}

/// The `MPF\0` signature bytes.
pub open spec fn mpf_sig() -> Seq<u8> {
    seq![0x4Du8, 0x50u8, 0x46u8, 0x00u8]
}

/// The big-endian TIFF byte-order marker.
pub open spec fn mpf_be_marker() -> Seq<u8> {
    seq![0x4Du8, 0x4Du8, 0x00u8, 0x2Au8]
}

/// The little-endian TIFF byte-order marker.
pub open spec fn mpf_le_marker() -> Seq<u8> {
    seq![0x49u8, 0x49u8, 0x2Au8, 0x00u8]
}

/// A 16-bit read at `pos` in the declared byte order.
pub open spec fn r16(b: Seq<u8>, pos: int, be: bool) -> u16
    recommends
        0 <= pos,
        pos + 2 <= b.len(),
{
    if be {
        be16(b[pos], b[pos + 1])
    } else {
        le16(b[pos], b[pos + 1])
    }
}

/// A 32-bit read at `pos` in the declared byte order.
pub open spec fn r32(b: Seq<u8>, pos: int, be: bool) -> u32
    recommends
        0 <= pos,
        pos + 4 <= b.len(),
{
    if be {
        be32(b[pos], b[pos + 1], b[pos + 2], b[pos + 3])
    } else {
        le32(b[pos], b[pos + 1], b[pos + 2], b[pos + 3])
    }
}

/// State collected while scanning the IFD: the image count, the MPEntry data
/// position, and the MPEntry byte length, each from the latest tag seen.
pub open spec fn mpf_scan(
    b: Seq<u8>,
    be: bool,
    ifd: int,
    i: int,
    n: int,
    num: Option<u32>,
    off: Option<int>,
    blen: Option<u32>,
) -> Result<(Option<u32>, Option<int>, Option<u32>), MpfError>
    decreases n - i when i <= n
{
    if i >= n {
        Ok((num, off, blen))
    } else {
        let base = ifd + 2 + i * 12;
        let tag = r16(b, base, be);
        let typ = r16(b, base + 2, be);
        let count = r32(b, base + 4, be);
        let vo = r32(b, base + 8, be);
        if tag == 0xB001 {
            mpf_scan(b, be, ifd, i + 1, n, Some(vo), off, blen)
        } else if tag == 0xB002 {
            if typ != 7 {
                Err(MpfError::EntryTypeUnexpected)
            } else if count > 4 && vo as int + 4 > usize::MAX as int {
                Err(MpfError::EntryOffsetOverflow)
            } else {
                let noff = if count > 4 {
                    4 + vo as int
                } else {
                    base + 8
                };
                mpf_scan(b, be, ifd, i + 1, n, num, Some(noff), Some(count))
            }
        } else {
            mpf_scan(b, be, ifd, i + 1, n, num, off, blen)
        }
    }
}

/// The sizes an MPF payload declares for its primary and secondary images,
/// or the error that rejects it; mirrors [`parse_mpf_payload`] exactly.
#[verifier::opaque]
pub open spec fn mpf_parse(b: Seq<u8>) -> Result<(u32, u32), MpfError> {
    if b.len() < 12 {
        Err(MpfError::TooShort)
    } else if b.subrange(0, 4) != mpf_sig() {
        Err(MpfError::MissingSignature)
    } else if b.subrange(4, 8) != mpf_be_marker() && b.subrange(4, 8) != mpf_le_marker() {
        Err(MpfError::UnknownEndianness)
    } else {
        let be = b.subrange(4, 8) == mpf_be_marker();
        let ifd_off = r32(b, 8, be) as int;
        if ifd_off + 4 > usize::MAX as int {
            Err(MpfError::IfdOffsetOverflow)
        } else {
            let ifd = 4 + ifd_off;
            if ifd + 2 > b.len() {
                Err(MpfError::ReadOutOfBounds)
            } else {
                let n = r16(b, ifd, be) as int;
                if ifd + 2 + n * 12 > b.len() {
                    Err(MpfError::ReadOutOfBounds)
                } else {
                    match mpf_scan(b, be, ifd, 0, n, None, None, None) {
                        Err(e) => Err(e),
                        Ok((num, off, blen)) => mpf_finish(b, be, num, off, blen),
                    }
                }
            }
        }
    }
}

/// Validation of the scanned state and the two entry reads.
pub open spec fn mpf_finish(
    b: Seq<u8>,
    be: bool,
    num: Option<u32>,
    off: Option<int>,
    blen: Option<u32>,
) -> Result<(u32, u32), MpfError> {
    match num {
        None => Err(MpfError::MissingImageCount),
        Some(entries) => match off {
            None => Err(MpfError::MissingEntryOffset),
            Some(eo) => {
                let bl = match blen {
                    Some(l) => l as int,
                    None => entries as int * 16,
                };
                if eo + bl > b.len() {
                    Err(MpfError::EntriesOutOfBounds)
                } else if bl < entries as int * 16 {
                    Err(MpfError::EntriesTooShort)
                } else if entries < 2 {
                    Err(MpfError::MissingSecondary)
                } else {
                    Ok((r32(b, eo + 4, be), r32(b, eo + 20, be)))
                }
            },
        },
    }
}

/// Parse an MPF APP2 payload, recovering the primary and secondary image
/// sizes from the first two MPEntry records.
///
/// Relies on nothing beyond the bytes: succeeds or fails exactly as
/// [`mpf_parse`] does, and on success returns exactly the sizes it names.
pub fn parse_mpf_payload(payload: &[u8]) -> (r: Result<MpfInfo, MpfError>)
    ensures
        match r {
            Ok(info) => mpf_parse(payload@) == Ok::<_, MpfError>(
                (info.primary_size as u32, info.secondary_size as u32),
            ) && info.segment_index == 0 && info.primary_size <= u32::MAX
                && info.secondary_size <= u32::MAX,
            Err(e) => mpf_parse(payload@) == Err::<(u32, u32), _>(e),
        },
{
    proof {
        reveal(mpf_parse);
    }
    if payload.len() < 12 {
        return Err(MpfError::TooShort);
    }
    let sig: [u8; 4] = [0x4D, 0x50, 0x46, 0x00];
    if !crate::binutil::slices_eq_at(payload, sig.as_slice(), 0) {
        proof {
            assert(payload@.subrange(0, 4) != mpf_sig());
        }
        return Err(MpfError::MissingSignature);
    }
    proof {
        assert(payload@.subrange(0, 4) =~= mpf_sig());
    }
    let be_marker: [u8; 4] = [0x4D, 0x4D, 0x00, 0x2A];
    let le_marker: [u8; 4] = [0x49, 0x49, 0x2A, 0x00];
    let is_be = crate::binutil::slices_eq_at(payload, be_marker.as_slice(), 4);
    let is_le = crate::binutil::slices_eq_at(payload, le_marker.as_slice(), 4);
    if !is_be && !is_le {
        return Err(MpfError::UnknownEndianness);
    }
    let be = is_be;
    proof {
        assert(be ==> payload@.subrange(4, 8) =~= mpf_be_marker());
        assert(!be ==> payload@.subrange(4, 8) =~= mpf_le_marker());
        assert(!be ==> payload@.subrange(4, 8) != mpf_be_marker());
    }
    let ifd_off = if be {
        read_u32_be(payload, 8)
    } else {
        read_u32_le(payload, 8)
    };
    if ifd_off as u64 + 4 > usize::MAX as u64 {
        return Err(MpfError::IfdOffsetOverflow);
    }
    let ifd: usize = 4 + ifd_off as usize;
    if ifd > payload.len() || payload.len() - ifd < 2 {
        return Err(MpfError::ReadOutOfBounds);
    }
    let n = if be {
        read_u16_be(payload, ifd)
    } else {
        read_u16_le(payload, ifd)
    };
    if (n as u64) * 12 > (payload.len() - ifd - 2) as u64 {
        return Err(MpfError::ReadOutOfBounds);
    }
    let plen: usize = payload.len();
    let mut i: usize = 0;
    let mut num: Option<u32> = None;
    let mut off: Option<usize> = None;
    let mut blen: Option<u32> = None;
    while i < n as usize
        invariant
            0 <= i <= n,
            plen == payload@.len(),
            ifd + 2 + n as int * 12 <= plen,
            mpf_parse(payload@) == (match mpf_scan(
                payload@,
                be,
                ifd as int,
                0,
                n as int,
                None,
                None,
                None,
            ) {
                Err(e) => Err::<(u32, u32), MpfError>(e),
                Ok((num2, off2, blen2)) => mpf_finish(payload@, be, num2, off2, blen2),
            }),
            mpf_scan(payload@, be, ifd as int, 0, n as int, None, None, None) == mpf_scan(
                payload@,
                be,
                ifd as int,
                i as int,
                n as int,
                num,
                match off {
                    Some(o) => Some(o as int),
                    None => None,
                },
                blen,
            ),
        decreases n - i,
    {
        proof {
            assert((i + 1) * 12 <= n as int * 12) by (nonlinear_arith)
                requires
                    i + 1 <= n as int,
            ;
            assert(i * 12 + 12 == (i + 1) * 12) by (nonlinear_arith);
        }
        let base = ifd + 2 + i * 12;
        let tag = if be {
            read_u16_be(payload, base)
        } else {
            read_u16_le(payload, base)
        };
        if tag == 0xB001 {
            let vo = if be {
                read_u32_be(payload, base + 8)
            } else {
                read_u32_le(payload, base + 8)
            };
            num = Some(vo);
        } else if tag == 0xB002 {
            let typ = if be {
                read_u16_be(payload, base + 2)
            } else {
                read_u16_le(payload, base + 2)
            };
            let count = if be {
                read_u32_be(payload, base + 4)
            } else {
                read_u32_le(payload, base + 4)
            };
            let vo = if be {
                read_u32_be(payload, base + 8)
            } else {
                read_u32_le(payload, base + 8)
            };
            if typ != 7 {
                return Err(MpfError::EntryTypeUnexpected);
            }
            if count > 4 && vo as u64 + 4 > usize::MAX as u64 {
                return Err(MpfError::EntryOffsetOverflow);
            }
            if count > 4 {
                off = Some(4 + vo as usize);
            } else {
                off = Some(base + 8);
            }
            blen = Some(count);
        }
        i += 1;
    }
    let entries = match num {
        Some(v) => v,
        None => {
            return Err(MpfError::MissingImageCount);
        },
    };
    let eo = match off {
        Some(v) => v,
        None => {
            return Err(MpfError::MissingEntryOffset);
        },
    };
    let bl: u64 = match blen {
        Some(l) => l as u64,
        None => entries as u64 * 16,
    };
    if eo > payload.len() || bl > (payload.len() - eo) as u64 {
        return Err(MpfError::EntriesOutOfBounds);
    }
    if bl < entries as u64 * 16 {
        return Err(MpfError::EntriesTooShort);
    }
    if entries < 2 {
        return Err(MpfError::MissingSecondary);
    }
    let primary_size = if be {
        read_u32_be(payload, eo + 4)
    } else {
        read_u32_le(payload, eo + 4)
    };
    let secondary_size = if be {
        read_u32_be(payload, eo + 20)
    } else {
        read_u32_le(payload, eo + 20)
    };
    Ok(MpfInfo {
        segment_index: 0,
        primary_size: primary_size as usize,
        secondary_size: secondary_size as usize,
    })
}

/// The freshly built MPF payload: big-endian, three tags (version, an image
/// count of two, the MPEntry array), then the primary entry (marked
/// representative and primary, offset zero) and the secondary entry.
#[verifier::opaque]
pub open spec fn mpf_payload_bytes(p: u32, g: u32, o: u32) -> Seq<u8> {
    mpf_sig() + mpf_be_marker() + u32_be_bytes(8) + u16_be_bytes(3) + u16_be_bytes(0xB000)
        + u16_be_bytes(7) + u32_be_bytes(4) + seq![0x30u8, 0x31u8, 0x30u8, 0x30u8] + u16_be_bytes(
        0xB001,
    ) + u16_be_bytes(4) + u32_be_bytes(1) + u32_be_bytes(2) + u16_be_bytes(0xB002) + u16_be_bytes(7)
        + u32_be_bytes(32) + u32_be_bytes(50) + u32_be_bytes(0) + u32_be_bytes(0x00030000)
        + u32_be_bytes(p) + u32_be_bytes(0) + u16_be_bytes(0) + u16_be_bytes(0) + u32_be_bytes(0)
        + u32_be_bytes(g) + u32_be_bytes(o) + u16_be_bytes(0) + u16_be_bytes(0)
}

/// Re-parsing a freshly built MPF payload recovers the primary and secondary
/// sizes it was built from, and the payload declares exactly two images.
#[verifier::rlimit(100)]
pub proof fn lemma_mpf_round_trip(p: u32, g: u32, o: u32)
    ensures
        mpf_parse(mpf_payload_bytes(p, g, o)) == Ok::<(u32, u32), MpfError>((p, g)),
{
    reveal(mpf_parse);
    reveal(mpf_payload_bytes);
    let b = mpf_payload_bytes(p, g, o);
    assert(b.len() == 86);
    assert(b.subrange(0, 4) =~= mpf_sig());
    assert(b.subrange(4, 8) =~= mpf_be_marker());
    assert(b.subrange(4, 8) != mpf_le_marker());
    assert(b.subrange(8, 12) =~= u32_be_bytes(8));
    lemma_be32_roundtrip(8);
    assert(r32(b, 8, true) == 8);
    assert(b.subrange(12, 14) =~= u16_be_bytes(3));
    lemma_be16_roundtrip(3);
    assert(r16(b, 12, true) == 3);
    // The three IFD entries, at payload offsets 14, 26 and 38.
    assert(b.subrange(14, 16) =~= u16_be_bytes(0xB000));
    lemma_be16_roundtrip(0xB000);
    assert(r16(b, 14, true) == 0xB000);
    assert(b.subrange(26, 28) =~= u16_be_bytes(0xB001));
    lemma_be16_roundtrip(0xB001);
    assert(r16(b, 26, true) == 0xB001);
    assert(b.subrange(34, 38) =~= u32_be_bytes(2));
    lemma_be32_roundtrip(2);
    assert(r32(b, 34, true) == 2);
    assert(b.subrange(38, 40) =~= u16_be_bytes(0xB002));
    lemma_be16_roundtrip(0xB002);
    assert(r16(b, 38, true) == 0xB002);
    assert(b.subrange(40, 42) =~= u16_be_bytes(7));
    lemma_be16_roundtrip(7);
    assert(r16(b, 40, true) == 7);
    assert(b.subrange(42, 46) =~= u32_be_bytes(32));
    lemma_be32_roundtrip(32);
    assert(r32(b, 42, true) == 32);
    assert(b.subrange(46, 50) =~= u32_be_bytes(50));
    lemma_be32_roundtrip(50);
    assert(r32(b, 46, true) == 50);
    // Scanning the three entries collects the image count and entry table.
    assert(mpf_scan(b, true, 12, 0, 3, None, None, None) == mpf_scan(
        b,
        true,
        12,
        1,
        3,
        None,
        None,
        None,
    ));
    assert(mpf_scan(b, true, 12, 1, 3, None, None, None) == mpf_scan(
        b,
        true,
        12,
        2,
        3,
        Some(2u32),
        None,
        None,
    ));
    assert(mpf_scan(b, true, 12, 2, 3, Some(2u32), None, None) == mpf_scan(
        b,
        true,
        12,
        3,
        3,
        Some(2u32),
        Some(54int),
        Some(32u32),
    ));
    assert(mpf_scan(b, true, 12, 3, 3, Some(2u32), Some(54int), Some(32u32)) == Ok::<
        _,
        MpfError,
    >((Some(2u32), Some(54int), Some(32u32))));
    // The two MPEntry records hold the sizes at offsets 58 and 74.
    assert(b.subrange(58, 62) =~= u32_be_bytes(p));
    lemma_be32_roundtrip(p);
    assert(r32(b, 58, true) == p);
    assert(b.subrange(74, 78) =~= u32_be_bytes(g));
    lemma_be32_roundtrip(g);
    assert(r32(b, 74, true) == g);
    assert(mpf_finish(b, true, Some(2u32), Some(54int), Some(32u32)) == Ok::<_, MpfError>((p, g)));
}


/// Shape of a freshly built payload: 86 bytes, opening with the signature,
/// with the primary size, secondary size and secondary offset fields at
/// their fixed places.
pub proof fn lemma_mpf_payload_shape(p: u32, g: u32, o: u32)
    ensures
        mpf_payload_bytes(p, g, o).len() == 86,
        mpf_payload_bytes(p, g, o).subrange(0, 4) == mpf_sig(),
        mpf_payload_bytes(p, g, o).subrange(58, 62) == u32_be_bytes(p),
        mpf_payload_bytes(p, g, o).subrange(74, 78) == u32_be_bytes(g),
        mpf_payload_bytes(p, g, o).subrange(78, 82) == u32_be_bytes(o),
{
    reveal(mpf_payload_bytes);
    let b = mpf_payload_bytes(p, g, o);
    assert(b.len() == 86);
    assert(b.subrange(0, 4) =~= mpf_sig());
    assert(b.subrange(58, 62) =~= u32_be_bytes(p));
    assert(b.subrange(74, 78) =~= u32_be_bytes(g));
    assert(b.subrange(78, 82) =~= u32_be_bytes(o));
}

/// Build a fresh MPF payload for a primary image of `primary_size` bytes and
/// a gain map of `gainmap_size` bytes found `gainmap_offset_from_tiff` bytes
/// past the TIFF base.
///
/// Succeeds exactly when all three values fit in their 32-bit fields.
pub fn build_mpf_payload(
    primary_size: usize,
    gainmap_size: usize,
    gainmap_offset_from_tiff: usize,
) -> (r: Result<Vec<u8>, MpfError>)
    ensures
        r is Ok <==> primary_size <= u32::MAX && gainmap_size <= u32::MAX
            && gainmap_offset_from_tiff <= u32::MAX,
        r matches Ok(v) ==> v@ == mpf_payload_bytes(
            primary_size as u32,
            gainmap_size as u32,
            gainmap_offset_from_tiff as u32,
        ) && v@.len() == 86,
        r matches Err(e) ==> e == MpfError::ValueTooLarge,
{
    proof {
        reveal(mpf_payload_bytes);
    }
    if primary_size as u64 > u32::MAX as u64 {
        return Err(MpfError::ValueTooLarge);
    }
    if gainmap_size as u64 > u32::MAX as u64 {
        return Err(MpfError::ValueTooLarge);
    }
    if gainmap_offset_from_tiff as u64 > u32::MAX as u64 {
        return Err(MpfError::ValueTooLarge);
    }
    let p = primary_size as u32;
    let g = gainmap_size as u32;
    let o = gainmap_offset_from_tiff as u32;

    let mut buf: Vec<u8> = Vec::new();
    buf.push(0x4D);
    buf.push(0x50);
    buf.push(0x46);
    buf.push(0x00);
    proof {
        assert(buf@ =~= mpf_sig());
    }
    buf.push(0x4D);
    buf.push(0x4D);
    buf.push(0x00);
    buf.push(0x2A);
    proof {
        assert(buf@ =~= mpf_sig() + mpf_be_marker());
    }
    crate::binutil::push_u32_be(&mut buf, 8);
    crate::binutil::push_u16_be(&mut buf, 3);

    crate::binutil::push_u16_be(&mut buf, 0xB000);
    crate::binutil::push_u16_be(&mut buf, 7);
    crate::binutil::push_u32_be(&mut buf, 4);
    buf.push(0x30);
    buf.push(0x31);
    buf.push(0x30);
    buf.push(0x30);

    crate::binutil::push_u16_be(&mut buf, 0xB001);
    crate::binutil::push_u16_be(&mut buf, 4);
    crate::binutil::push_u32_be(&mut buf, 1);
    crate::binutil::push_u32_be(&mut buf, 2);

    crate::binutil::push_u16_be(&mut buf, 0xB002);
    crate::binutil::push_u16_be(&mut buf, 7);
    crate::binutil::push_u32_be(&mut buf, 32);
    crate::binutil::push_u32_be(&mut buf, 50);

    crate::binutil::push_u32_be(&mut buf, 0);

    crate::binutil::push_u32_be(&mut buf, 0x00030000);
    crate::binutil::push_u32_be(&mut buf, p);
    crate::binutil::push_u32_be(&mut buf, 0);
    crate::binutil::push_u16_be(&mut buf, 0);
    crate::binutil::push_u16_be(&mut buf, 0);

    crate::binutil::push_u32_be(&mut buf, 0);
    crate::binutil::push_u32_be(&mut buf, g);
    crate::binutil::push_u32_be(&mut buf, o);
    crate::binutil::push_u16_be(&mut buf, 0);
    crate::binutil::push_u16_be(&mut buf, 0);

    proof {
        assert(buf@ =~= mpf_payload_bytes(p, g, o));
    }
    Ok(buf)
}

} // verus!
