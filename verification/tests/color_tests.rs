use ultrahdr_bake::color::{
    detect_icc_color_gamut, gamut_label, match_desc_hint, match_primaries, parse_primaries,
    profile_description, Primaries, Xyz,
};
use ultrahdr_bake::types::ColorGamut;

/// Build a minimal ICC profile holding the three XYZ tags (raw s15Fixed16
/// values) and optionally a description text.
fn icc_profile_bytes(r: [i32; 3], g: [i32; 3], b: [i32; 3], desc: Option<&str>) -> Vec<u8> {
    let mut tags: Vec<([u8; 4], Vec<u8>)> = Vec::new();
    for (sig, v) in [(*b"rXYZ", r), (*b"gXYZ", g), (*b"bXYZ", b)] {
        let mut data = b"XYZ \0\0\0\0".to_vec();
        for c in v {
            data.extend_from_slice(&c.to_be_bytes());
        }
        tags.push((sig, data));
    }
    if let Some(text) = desc {
        let mut data = b"desc\0\0\0\0".to_vec();
        data.extend_from_slice(&(text.len() as u32).to_be_bytes());
        data.extend_from_slice(text.as_bytes());
        tags.push((*b"desc", data));
    }
    let table_len = 132 + 12 * tags.len();
    let mut icc = vec![0u8; 128];
    icc.extend_from_slice(&(tags.len() as u32).to_be_bytes());
    let mut offset = table_len;
    for (sig, data) in &tags {
        icc.extend_from_slice(sig);
        icc.extend_from_slice(&(offset as u32).to_be_bytes());
        icc.extend_from_slice(&(data.len() as u32).to_be_bytes());
        offset += data.len();
    }
    for (_, data) in &tags {
        icc.extend_from_slice(data);
    }
    icc
}

/// Wrap an ICC profile into a one-chunk JPEG APP2 segment.
fn jpeg_with_icc(icc: &[u8]) -> Vec<u8> {
    let mut contents = b"ICC_PROFILE\0".to_vec();
    contents.push(1);
    contents.push(1);
    contents.extend_from_slice(icc);
    let mut out: Vec<u8> = vec![0xFF, 0xD8];
    let len = (contents.len() + 2) as u16;
    out.extend_from_slice(&[0xFF, 0xE2]);
    out.extend_from_slice(&len.to_be_bytes());
    out.extend_from_slice(&contents);
    out.extend_from_slice(&[0xFF, 0xDA, 0x00, 0x02, 0x00, 0xFF, 0xD9]);
    out
}

/// Primaries whose chromaticities sit exactly `delta_10k` 1/10000ths away
/// from the given reference pair in both coordinates (sum fixed at 10000).
fn shifted(refs: [[i32; 2]; 3], delta_10k: i32) -> Primaries {
    let mk = |p: [i32; 2]| Xyz {
        x: p[0] + delta_10k,
        y: p[1] + delta_10k,
        z: 10000 - (p[0] + delta_10k) - (p[1] + delta_10k),
    };
    Primaries {
        r: mk(refs[0]),
        g: mk(refs[1]),
        b: mk(refs[2]),
    }
}

const P3: [[i32; 2]; 3] = [[6800, 3200], [2650, 6900], [1500, 600]];
const BT2100: [[i32; 2]; 3] = [[7080, 2920], [1700, 7970], [1310, 460]];
const BT709: [[i32; 2]; 3] = [[6400, 3300], [3000, 6000], [1500, 600]];

#[test]
fn gamut_match_succeeds_exactly_at_tolerance() {
    // Exactly at the 0.005 boundary the match still succeeds...
    assert_eq!(
        match_primaries(&shifted(P3, 50)),
        Some(ColorGamut::DisplayP3)
    );
    assert_eq!(
        match_primaries(&shifted(BT2100, 50)),
        Some(ColorGamut::Bt2100)
    );
    assert_eq!(match_primaries(&shifted(BT709, 50)), Some(ColorGamut::Bt709));
    // ... and one step past it (0.0051) it fails.
    assert_eq!(match_primaries(&shifted(P3, 51)), None);
    assert_eq!(match_primaries(&shifted(BT2100, 51)), None);
    assert_eq!(match_primaries(&shifted(BT709, 51)), None);
}

#[test]
fn gamut_priority_prefers_p3_over_bt709() {
    // Exact P3 primaries are P3 even though BT.709 is also checked.
    assert_eq!(match_primaries(&shifted(P3, 0)), Some(ColorGamut::DisplayP3));
    assert_eq!(match_primaries(&shifted(BT709, 0)), Some(ColorGamut::Bt709));
}

#[test]
fn description_hint_falls_back_when_primaries_do_not_match() {
    // Off-gamut primaries plus a "2020" description: the hint decides.
    let icc = icc_profile_bytes(
        [5000, 2000, 3000],
        [2000, 5000, 3000],
        [3000, 2000, 5000],
        Some("Rec. 2020 flavoured profile"),
    );
    let jpeg = jpeg_with_icc(&icc);
    assert_eq!(detect_icc_color_gamut(&jpeg), Some(ColorGamut::Bt2100));
}

#[test]
fn detect_reads_primaries_from_embedded_profile() {
    let p = shifted(P3, 0);
    let icc = icc_profile_bytes(
        [p.r.x, p.r.y, p.r.z],
        [p.g.x, p.g.y, p.g.z],
        [p.b.x, p.b.y, p.b.z],
        None,
    );
    let parsed = parse_primaries(&icc).unwrap();
    assert_eq!(parsed, p);
    let jpeg = jpeg_with_icc(&icc);
    assert_eq!(detect_icc_color_gamut(&jpeg), Some(ColorGamut::DisplayP3));
}

#[test]
fn detect_returns_none_without_icc_or_for_bad_jpeg() {
    assert_eq!(detect_icc_color_gamut(b"garbage"), None);
    let plain: Vec<u8> = vec![0xFF, 0xD8, 0xFF, 0xDA, 0x00, 0x02, 0xFF, 0xD9];
    assert_eq!(detect_icc_color_gamut(&plain), None);
}

#[test]
fn profile_description_trims_nuls() {
    let icc = icc_profile_bytes(
        [1, 1, 1],
        [1, 1, 1],
        [1, 1, 1],
        Some("sRGB built-in\0\0"),
    );
    let desc = profile_description(&icc).unwrap();
    assert_eq!(desc, b"sRGB built-in".to_vec());
}

#[test]
fn desc_hints_match_known_names() {
    assert_eq!(match_desc_hint(b"Display P3"), Some(ColorGamut::DisplayP3));
    assert_eq!(match_desc_hint(b"ITU-R BT.2100"), Some(ColorGamut::Bt2100));
    assert_eq!(match_desc_hint(b"sRGB IEC61966"), Some(ColorGamut::Bt709));
    assert_eq!(match_desc_hint(b"Rec709"), Some(ColorGamut::Bt709));
    assert_eq!(match_desc_hint(b"AdobeRGB"), None);
}

#[test]
fn gamut_labels_are_stable() {
    assert_eq!(gamut_label(ColorGamut::Bt709), "BT.709 / sRGB");
    assert_eq!(gamut_label(ColorGamut::Bt2100), "BT.2100 / Rec.2020");
    assert_eq!(gamut_label(ColorGamut::DisplayP3), "Display P3");
    assert_eq!(gamut_label(ColorGamut::Unspecified), "unspecified");
}

#[test]
fn profile_description_requires_valid_utf8() {
    // A lone 0xFF byte is not valid UTF-8: the description is rejected and
    // the hint is never consulted, as if the tag were absent.
    let icc = icc_profile_bytes([1, 1, 1], [1, 1, 1], [1, 1, 1], Some("2020 \u{FFFD}"));
    // Corrupt one description byte into an invalid sequence.
    let mut bad = icc.clone();
    let pos = bad.len() - 1;
    bad[pos] = 0xFF;
    assert_eq!(profile_description(&bad), None);
    assert_eq!(detect_icc_color_gamut(&jpeg_with_icc(&bad)), None);
    // Valid multi-byte UTF-8 passes through untouched.
    let good = icc_profile_bytes([1, 1, 1], [1, 1, 1], [1, 1, 1], Some("B\u{00E9}zier 2020"));
    let desc = profile_description(&good).unwrap();
    assert_eq!(desc, "B\u{00E9}zier 2020".as_bytes().to_vec());
    assert_eq!(
        detect_icc_color_gamut(&jpeg_with_icc(&good)),
        Some(ColorGamut::Bt2100)
    );
}
