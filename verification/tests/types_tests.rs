use ultrahdr_bake::error::ErrorCode;
use ultrahdr_bake::types::{
    bytes_per_pixel, ColorGamut, ColorRange, ColorTransfer, CompressedImage, DecodedPackedView,
    EncodedView, ImgFormat, OwnedPackedImage, RawImage,
};

#[test]
fn raw_image_rgba_checks_buffer_size() {
    let buf = vec![0u8; 3];
    let res = RawImage::rgba8888(
        1,
        1,
        &buf,
        ColorGamut::DisplayP3,
        ColorTransfer::Srgb,
        ColorRange::Full,
    );
    let err = res.err().expect("expected buffer size validation to fail");
    assert_eq!(err.code, ErrorCode::InvalidParam);
}

#[test]
fn bytes_per_pixel_matches_supported_formats() {
    assert_eq!(bytes_per_pixel(ImgFormat::Rgba8888).unwrap(), 4);
    assert_eq!(bytes_per_pixel(ImgFormat::RgbaF16).unwrap(), 8);
    let err = bytes_per_pixel(ImgFormat::Unspecified).unwrap_err();
    assert_eq!(err.code, ErrorCode::InvalidParam);
}

#[test]
fn encoded_view_validates_backing_buffer() {
    // A slot without a buffer is rejected.
    let view = EncodedView {
        data: Vec::new(),
        data_sz: 4,
        capacity: 4,
        present: false,
        cg: ColorGamut::Unspecified,
        ct: ColorTransfer::Unspecified,
        range: ColorRange::Full,
    };
    let err = view.bytes().unwrap_err();
    assert_eq!(err.code, ErrorCode::InvalidParam);

    // data_sz larger than capacity is rejected.
    let view = EncodedView {
        data: vec![1u8, 2, 3, 4],
        data_sz: 5,
        capacity: 4,
        present: true,
        cg: ColorGamut::Unspecified,
        ct: ColorTransfer::Unspecified,
        range: ColorRange::Full,
    };
    let err = view.bytes().unwrap_err();
    assert_eq!(err.code, ErrorCode::InvalidParam);
}

#[test]
fn encoded_view_reads_slice() {
    let view = EncodedView {
        data: vec![1u8, 2, 3, 4],
        data_sz: 4,
        capacity: 4,
        present: true,
        cg: ColorGamut::DisplayP3,
        ct: ColorTransfer::Pq,
        range: ColorRange::Full,
    };
    let bytes = view.bytes().unwrap();
    assert_eq!(bytes, &[1, 2, 3, 4]);
    let (cg, ct, range) = view.meta();
    assert_eq!(cg, ColorGamut::DisplayP3);
    assert_eq!(ct, ColorTransfer::Pq);
    assert_eq!(range, ColorRange::Full);
    let owned = view.to_owned().unwrap();
    assert_eq!(owned.data, vec![1u8, 2, 3, 4]);
}

#[test]
fn decoded_view_row_checks_bounds_and_stride() {
    let width = 2u32;
    let height = 2u32;
    let bpp = 4usize;
    let buf = vec![0u8; (width * height) as usize * bpp * 4];
    // stride smaller than width triggers validation.
    let view = DecodedPackedView::new(
        ImgFormat::Rgba8888,
        ColorGamut::DisplayP3,
        ColorTransfer::Pq,
        ColorRange::Full,
        width,
        height,
        1,
        buf,
    )
    .unwrap();
    let err = view.row(0).unwrap_err();
    assert_eq!(err.code, ErrorCode::InvalidParam);
}

#[test]
fn decoded_view_to_owned_copies_packed_pixels() {
    let width = 2u32;
    let height = 2u32;
    let bpp = 4usize;
    // stride allows padding beyond the logical width.
    let stride_px = 4usize;
    let mut buf = vec![0u8; stride_px * height as usize * bpp];
    // First row: pixels 1 and 2, then padding.
    buf[0..8].copy_from_slice(&[1, 2, 3, 4, 5, 6, 7, 8]);
    // Second row starts at the stride offset.
    let row2_start = stride_px * bpp;
    buf[row2_start..row2_start + 8].copy_from_slice(&[9, 10, 11, 12, 13, 14, 15, 16]);

    let view = DecodedPackedView::new(
        ImgFormat::Rgba8888,
        ColorGamut::DisplayP3,
        ColorTransfer::Pq,
        ColorRange::Full,
        width,
        height,
        stride_px as u32,
        buf,
    )
    .unwrap();
    let owned = view.to_owned().unwrap();
    assert_eq!(owned.data.len(), width as usize * height as usize * bpp);
    assert_eq!(&owned.data[..8], &[1, 2, 3, 4, 5, 6, 7, 8]);
    assert_eq!(&owned.data[8..], &[9, 10, 11, 12, 13, 14, 15, 16]);
}

#[test]
fn owned_packed_image_is_zeroed_and_sized() {
    let mut img = OwnedPackedImage::new(
        ImgFormat::Rgba1010102,
        3,
        2,
        ColorGamut::Bt2100,
        ColorTransfer::Pq,
        ColorRange::Full,
    )
    .unwrap();
    assert_eq!(img.width(), 3);
    assert_eq!(img.height(), 2);
    assert_eq!(img.fmt(), ImgFormat::Rgba1010102);
    assert_eq!(img.buffer().len(), 3 * 2 * 4);
    assert!(img.buf.iter().all(|&b| b == 0));
    let err = OwnedPackedImage::new(
        ImgFormat::Yuv420,
        1,
        1,
        ColorGamut::Unspecified,
        ColorTransfer::Unspecified,
        ColorRange::Unspecified,
    )
    .unwrap_err();
    assert_eq!(err.code, ErrorCode::InvalidParam);
}

#[test]
fn decoded_view_row_reads_with_stride() {
    let mut buf = vec![0u8; 4 * 2 * 4];
    buf[0..8].copy_from_slice(&[1, 2, 3, 4, 5, 6, 7, 8]);
    let row2 = 4 * 4;
    buf[row2..row2 + 8].copy_from_slice(&[9, 10, 11, 12, 13, 14, 15, 16]);
    let view = DecodedPackedView::new(
        ImgFormat::Rgba8888,
        ColorGamut::Bt709,
        ColorTransfer::Srgb,
        ColorRange::Full,
        2,
        2,
        4,
        buf,
    )
    .unwrap();
    assert_eq!(view.row(0).unwrap(), &[1, 2, 3, 4, 5, 6, 7, 8]);
    assert_eq!(view.row(1).unwrap(), &[9, 10, 11, 12, 13, 14, 15, 16]);
    assert!(view.row(2).is_err());
}

#[test]
fn compressed_image_wraps_bytes() {
    let img = CompressedImage::from_bytes(
        &[0xFF, 0xD8, 0xFF, 0xD9],
        ColorGamut::Unspecified,
        ColorTransfer::Unspecified,
        ColorRange::Unspecified,
    );
    assert_eq!(img.data, vec![0xFF, 0xD8, 0xFF, 0xD9]);
    assert_eq!(img.cg, ColorGamut::Unspecified);
}
