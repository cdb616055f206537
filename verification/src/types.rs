//! Image-buffer descriptors: plain-data models of the compressed and packed
//! pixel buffers that cross the codec boundary, with the validation the
//! library performs on them. Pixel contents are opaque bytes; the logic here
//! is the bookkeeping of formats, sizes, strides and copies.

use vstd::prelude::*;

use crate::error::{Error, ErrorCode};

verus! {

/// Pixel layout of a packed buffer.
#[derive(Clone, Copy, Debug, PartialEq, Eq, Structural)]
pub enum ImgFormat {
    /// Layout not declared.
    Unspecified,
    /// 24-bit YCbCr P010 (planar; not packed).
    P010,
    /// 12-bit YCbCr 4:2:0 (planar; not packed).
    Yuv420,
    /// 8-bit grayscale.
    Mono,
    /// 32 bits per pixel RGBA, 8 bits per channel.
    Rgba8888,
    /// 64 bits per pixel RGBA, half-float channels.
    RgbaF16,
    /// 32 bits per pixel RGBA, 10+10+10+2.
    Rgba1010102,
}

/// Scene-referred color gamut.
#[derive(Clone, Copy, Debug, PartialEq, Eq, Structural)]
pub enum ColorGamut {
    /// Gamut not declared.
    Unspecified,
    /// BT.709 / sRGB primaries.
    Bt709,
    /// Display P3 primaries.
    DisplayP3,
    /// BT.2100 / Rec.2020 primaries.
    Bt2100,
}

/// Transfer function relating encoded values and scene light.
#[derive(Clone, Copy, Debug, PartialEq, Eq, Structural)]
pub enum ColorTransfer {
    /// Transfer not declared.
    Unspecified,
    /// Linear light.
    Linear,
    /// Hybrid log-gamma.
    Hlg,
    /// Perceptual quantizer.
    Pq,
    /// sRGB gamma.
    Srgb,
}

/// Chroma sample range.
#[derive(Clone, Copy, Debug, PartialEq, Eq, Structural)]
pub enum ColorRange {
    /// Range not declared.
    Unspecified,
    /// Studio (limited) range.
    Limited,
    /// Full range.
    Full,
}

/// The `y`-th row of a tightly packed buffer with `rb` bytes per row.
pub open spec fn row_at(d: Seq<u8>, y: int, rb: int) -> Seq<u8> {
    d.subrange(y * rb, (y + 1) * rb)
}

/// The `y`-th row (first `rb` bytes) of a strided plane with `sb` bytes per
/// stride.
pub open spec fn strided_row_at(d: Seq<u8>, y: int, sb: int, rb: int) -> Seq<u8> {
    d.subrange(y * sb, y * sb + rb)
}

/// Bytes per pixel of the packed formats the helpers accept.
pub open spec fn bpp_of(fmt: ImgFormat) -> Option<usize> {
    match fmt {
        ImgFormat::Rgba8888 => Some(4usize),
        ImgFormat::Rgba1010102 => Some(4usize),
        ImgFormat::RgbaF16 => Some(8usize),
        _ => None,
    }
}

/// Bytes-per-pixel helper for the supported packed formats.
pub fn bytes_per_pixel(fmt: ImgFormat) -> (r: Result<usize, Error>)
    ensures
        match r {
            Ok(n) => bpp_of(fmt) == Some(n),
            Err(e) => bpp_of(fmt) is None && e.code == ErrorCode::InvalidParam,
        },
{
    match fmt {
        ImgFormat::Rgba8888 => Ok(4),
        ImgFormat::Rgba1010102 => Ok(4),
        ImgFormat::RgbaF16 => Ok(8),
        _ => Err(Error::invalid_param("unsupported packed format for helper")),
    }
}

/// Owned compressed JPEG (and optional gain map) bytes with color metadata.
#[derive(Debug)]
pub struct EncodedImage {
    /// Encoded byte stream.
    pub data: Vec<u8>,
    /// Color gamut of the encoded stream.
    pub cg: ColorGamut,
    /// Transfer function of the encoded stream.
    pub ct: ColorTransfer,
    /// Chroma range of the encoded stream.
    pub range: ColorRange,
}

/// View over an encoded stream slot: the backing bytes, the declared data
/// size and capacity, and whether the slot holds a buffer at all.
#[derive(Debug)]
pub struct EncodedView {
    /// The backing buffer.
    pub data: Vec<u8>,
    /// Declared length of the stream within the buffer.
    pub data_sz: usize,
    /// Declared capacity of the buffer.
    pub capacity: usize,
    /// Whether the slot holds a buffer (a slot without one stands for the
    /// codec handing back nothing).
    pub present: bool,
    /// Color gamut of the encoded stream.
    pub cg: ColorGamut,
    /// Transfer function of the encoded stream.
    pub ct: ColorTransfer,
    /// Chroma range of the encoded stream.
    pub range: ColorRange,
}

impl EncodedView {
    /// A present slot's declared capacity is its buffer size.
    pub open spec fn wf(self) -> bool {
        self.present ==> self.capacity == self.data@.len()
    }

    /// Return the stream bytes, validating the slot first.
    pub fn bytes(&self) -> (r: Result<&[u8], Error>)
        requires
            self.wf(),
        ensures
            match r {
                Ok(b) => self.present && self.data_sz <= self.capacity && b@
                    == self.data@.subrange(0, self.data_sz as int),
                Err(e) => (!self.present || self.data_sz > self.capacity) && e.code
                    == ErrorCode::InvalidParam,
            },
    {
        if !self.present {
            return Err(Error::invalid_param("null compressed data"));
        }
        if self.data_sz > self.capacity {
            return Err(Error::invalid_param("compressed size exceeds capacity"));
        }
        Ok(vstd::slice::slice_subrange(self.data.as_slice(), 0, self.data_sz))
    }

    /// Color metadata attached to the encoded stream.
    pub fn meta(&self) -> (r: (ColorGamut, ColorTransfer, ColorRange))
        ensures
            r == (self.cg, self.ct, self.range),
    {
        (self.cg, self.ct, self.range)
    }

    /// Copy the stream into an owned buffer.
    pub fn to_owned(&self) -> (r: Result<EncodedImage, Error>)
        requires
            self.wf(),
        ensures
            match r {
                Ok(img) => self.present && self.data_sz <= self.capacity && img.data@
                    == self.data@.subrange(0, self.data_sz as int) && img.cg == self.cg && img.ct
                    == self.ct && img.range == self.range,
                Err(e) => (!self.present || self.data_sz > self.capacity) && e.code
                    == ErrorCode::InvalidParam,
            },
    {
        let data = match copy_compressed_image(self) {
            Ok(d) => d,
            Err(e) => {
                return Err(e);
            },
        };
        Ok(EncodedImage { data, cg: self.cg, ct: self.ct, range: self.range })
    }
}

/// Copy a compressed slot's stream into an owned buffer, validating it
/// first.
pub fn copy_compressed_image(img: &EncodedView) -> (r: Result<Vec<u8>, Error>)
    requires
        img.wf(),
    ensures
        match r {
            Ok(d) => img.present && img.data_sz <= img.capacity && d@ == img.data@.subrange(
                0,
                img.data_sz as int,
            ),
            Err(e) => (!img.present || img.data_sz > img.capacity) && e.code
                == ErrorCode::InvalidParam,
        },
{
    if !img.present {
        return Err(Error::invalid_param("null compressed data"));
    }
    if img.data_sz > img.capacity {
        return Err(Error::invalid_param("compressed size exceeds capacity"));
    }
    let slice = vstd::slice::slice_subrange(img.data.as_slice(), 0, img.data_sz);
    Ok(vstd::slice::slice_to_vec(slice))
}

/// Descriptor over a caller-provided compressed JPEG buffer: the bytes and
/// the color metadata the codec should assume for them. The declared size
/// and capacity are both the buffer length.
#[derive(Debug)]
pub struct CompressedImage {
    /// The JPEG bytes.
    pub data: Vec<u8>,
    /// Color gamut of the stream.
    pub cg: ColorGamut,
    /// Transfer function of the stream.
    pub ct: ColorTransfer,
    /// Chroma range of the stream.
    pub range: ColorRange,
}

impl CompressedImage {
    /// Wrap a buffer of JPEG bytes.
    pub fn from_bytes(data: &[u8], cg: ColorGamut, ct: ColorTransfer, range: ColorRange) -> (r:
        CompressedImage)
        ensures
            r.data@ == data@,
            r.cg == cg,
            r.ct == ct,
            r.range == range,
    {
        CompressedImage { data: vstd::slice::slice_to_vec(data), cg, ct, range }
    }
}

/// Borrowed descriptor over a caller-provided packed pixel buffer: the
/// buffer itself stays with the caller, the descriptor records its length.
#[derive(Clone, Copy, Debug)]
pub struct RawImage {
    /// Pixel layout.
    pub fmt: ImgFormat,
    /// Color gamut.
    pub cg: ColorGamut,
    /// Transfer function.
    pub ct: ColorTransfer,
    /// Chroma range.
    pub range: ColorRange,
    /// Logical width in pixels.
    pub w: u32,
    /// Logical height in pixels.
    pub h: u32,
    /// Length of the described buffer in bytes.
    pub data_len: usize,
}

impl RawImage {
    /// Create a packed descriptor for RGBA-like formats, validating that the
    /// buffer holds `width * height` pixels of the format.
    pub fn packed(
        fmt: ImgFormat,
        width: u32,
        height: u32,
        data: &[u8],
        cg: ColorGamut,
        ct: ColorTransfer,
        range: ColorRange,
    ) -> (r: Result<RawImage, Error>)
        ensures
            match r {
                Ok(img) => bpp_of(fmt) matches Some(bpp) && data@.len() >= width * height * bpp
                    && img == (RawImage {
                    fmt,
                    cg,
                    ct,
                    range,
                    w: width,
                    h: height,
                    data_len: data@.len() as usize,
                }),
                Err(e) => (bpp_of(fmt) is None || (bpp_of(fmt) matches Some(bpp) && data@.len()
                    < width * height * bpp)) && e.code == ErrorCode::InvalidParam,
            },
    {
        let bpp = match bytes_per_pixel(fmt) {
            Ok(b) => b,
            Err(e) => {
                return Err(e);
            },
        };
        // `width * height * bpp` fits in the spec integers; compare in u64
        // twice to avoid usize overflow (bpp is at most 8).
        proof {
            assert(width as int * height as int <= u64::MAX) by (nonlinear_arith)
                requires
                    width <= u32::MAX && height <= u32::MAX,
            ;
        }
        let px = (width as u64) * (height as u64);
        let expected: u128 = (px as u128) * (bpp as u128);
        proof {
            assert(expected == width as int * height as int * bpp) by (nonlinear_arith)
                requires
                    px == width as int * height as int && expected == px * bpp,
            ;
        }
        if (data.len() as u128) < expected {
            return Err(Error::invalid_param("buffer smaller than width*height*bytes_per_pixel"));
        }
        Ok(RawImage { fmt, cg, ct, range, w: width, h: height, data_len: data.len() })
    }

    /// Create a packed RGBA8888 descriptor over the provided pixel buffer.
    pub fn rgba8888(
        width: u32,
        height: u32,
        data: &[u8],
        cg: ColorGamut,
        ct: ColorTransfer,
        range: ColorRange,
    ) -> (r: Result<RawImage, Error>)
        ensures
            match r {
                Ok(img) => data@.len() >= width * height * 4 && img == (RawImage {
                    fmt: ImgFormat::Rgba8888,
                    cg,
                    ct,
                    range,
                    w: width,
                    h: height,
                    data_len: data@.len() as usize,
                }),
                Err(e) => data@.len() < width * height * 4 && e.code == ErrorCode::InvalidParam,
            },
    {
        RawImage::packed(ImgFormat::Rgba8888, width, height, data, cg, ct, range)
    }

    /// Logical width in pixels.
    pub fn width(&self) -> (r: u32)
        ensures
            r == self.w,
    {
        self.w
    }

    /// Logical height in pixels.
    pub fn height(&self) -> (r: u32)
        ensures
            r == self.h,
    {
        self.h
    }

    /// Pixel layout.
    pub fn fmt(&self) -> (r: ImgFormat)
        ensures
            r == self.fmt,
    {
        self.fmt
    }

    /// Color metadata.
    pub fn meta(&self) -> (r: (ColorGamut, ColorTransfer, ColorRange))
        ensures
            r == (self.cg, self.ct, self.range),
    {
        (self.cg, self.ct, self.range)
    }
}

/// Owned packed pixels plus metadata.
#[derive(Debug)]
pub struct DecodedPacked {
    /// Pixel layout.
    pub fmt: ImgFormat,
    /// Color gamut.
    pub cg: ColorGamut,
    /// Transfer function.
    pub ct: ColorTransfer,
    /// Chroma range.
    pub range: ColorRange,
    /// Logical width in pixels.
    pub width: u32,
    /// Logical height in pixels.
    pub height: u32,
    /// Pixel buffer tightly packed to the width.
    pub data: Vec<u8>,
}

impl DecodedPacked {
    /// Re-expose the owned pixels as a [`RawImage`] descriptor.
    pub fn as_raw_image(&self) -> (r: Result<RawImage, Error>)
        ensures
            match r {
                Ok(img) => bpp_of(self.fmt) matches Some(bpp) && self.data@.len() >= self.width
                    * self.height * bpp && img == (RawImage {
                    fmt: self.fmt,
                    cg: self.cg,
                    ct: self.ct,
                    range: self.range,
                    w: self.width,
                    h: self.height,
                    data_len: self.data@.len() as usize,
                }),
                Err(e) => e.code == ErrorCode::InvalidParam,
            },
    {
        RawImage::packed(
            self.fmt,
            self.width,
            self.height,
            self.data.as_slice(),
            self.cg,
            self.ct,
            self.range,
        )
    }
}

/// Owns a packed pixel buffer sized to its width and height.
#[derive(Debug)]
pub struct OwnedPackedImage {
    /// The backing pixel buffer.
    pub buf: Vec<u8>,
    /// Pixel layout.
    pub fmt: ImgFormat,
    /// Color gamut.
    pub cg: ColorGamut,
    /// Transfer function.
    pub ct: ColorTransfer,
    /// Chroma range.
    pub range: ColorRange,
    /// Logical width in pixels.
    pub w: u32,
    /// Logical height in pixels.
    pub h: u32,
}

impl OwnedPackedImage {
    /// Allocate a zeroed packed buffer sized for `width * height` pixels in
    /// the given format.
    pub fn new(
        fmt: ImgFormat,
        width: u32,
        height: u32,
        cg: ColorGamut,
        ct: ColorTransfer,
        range: ColorRange,
    ) -> (r: Result<OwnedPackedImage, Error>)
        ensures
            match r {
                Ok(img) => bpp_of(fmt) matches Some(bpp) && img == (OwnedPackedImage {
                    buf: img.buf,
                    fmt,
                    cg,
                    ct,
                    range,
                    w: width,
                    h: height,
                }) && img.buf@.len() == width * height * bpp && (forall|i: int|
                    0 <= i < img.buf@.len() ==> img.buf@[i] == 0u8),
                Err(e) => (bpp_of(fmt) is None || (bpp_of(fmt) matches Some(bpp) && width * height
                    * bpp > usize::MAX)) && e.code == ErrorCode::InvalidParam,
            },
    {
        let bpp = match bytes_per_pixel(fmt) {
            Ok(b) => b,
            Err(e) => {
                return Err(e);
            },
        };
        proof {
            assert(width as int * height as int <= u64::MAX) by (nonlinear_arith)
                requires
                    width <= u32::MAX && height <= u32::MAX,
            ;
        }
        let px = (width as u64) * (height as u64);
        let total: u128 = (px as u128) * (bpp as u128);
        proof {
            assert(total == width as int * height as int * bpp) by (nonlinear_arith)
                requires
                    px == width as int * height as int && total == px * bpp,
            ;
        }
        if total > usize::MAX as u128 {
            return Err(Error::invalid_param("buffer size overflow"));
        }
        let len = total as usize;
        let mut buf: Vec<u8> = Vec::new();
        buf.resize(len, 0u8);
        proof {
            assert(forall|i: int| 0 <= i < buf@.len() ==> buf@[i] == 0u8);
        }
        Ok(OwnedPackedImage { buf, fmt, cg, ct, range, w: width, h: height })
    }

    /// Mutable access to the backing pixel buffer.
    pub fn buffer(&mut self) -> (r: &mut Vec<u8>)
        ensures
            *r == old(self).buf,
            final(self).buf == *final(r),
            final(self).fmt == old(self).fmt,
            final(self).cg == old(self).cg,
            final(self).ct == old(self).ct,
            final(self).range == old(self).range,
            final(self).w == old(self).w,
            final(self).h == old(self).h,
    {
        &mut self.buf
    }

    /// Logical width in pixels.
    pub fn width(&self) -> (r: u32)
        ensures
            r == self.w,
    {
        self.w
    }

    /// Logical height in pixels.
    pub fn height(&self) -> (r: u32)
        ensures
            r == self.h,
    {
        self.h
    }

    /// Pixel layout.
    pub fn fmt(&self) -> (r: ImgFormat)
        ensures
            r == self.fmt,
    {
        self.fmt
    }

    /// Color metadata.
    pub fn meta(&self) -> (r: (ColorGamut, ColorTransfer, ColorRange))
        ensures
            r == (self.cg, self.ct, self.range),
    {
        (self.cg, self.ct, self.range)
    }
}

/// View over packed pixels with an explicit stride (in pixels), as a decoder
/// hands them out.
#[derive(Debug)]
pub struct DecodedPackedView {
    /// Pixel layout.
    pub fmt: ImgFormat,
    /// Color gamut.
    pub cg: ColorGamut,
    /// Transfer function.
    pub ct: ColorTransfer,
    /// Chroma range.
    pub range: ColorRange,
    /// Logical width in pixels.
    pub w: u32,
    /// Logical height in pixels.
    pub h: u32,
    /// Row stride in pixels.
    pub stride_px: u32,
    /// The packed plane.
    pub data: Vec<u8>,
    /// Bytes per pixel of `fmt`.
    pub bpp: usize,
}

impl DecodedPackedView {
    /// The format is a supported packed one, `bpp` matches it, and the plane
    /// covers `h` rows of `stride_px` pixels.
    pub open spec fn wf(self) -> bool {
        bpp_of(self.fmt) == Some(self.bpp) && self.data@.len() >= self.h * self.stride_px
            * self.bpp
    }

    /// Wrap a packed plane, validating the format.
    pub fn new(
        fmt: ImgFormat,
        cg: ColorGamut,
        ct: ColorTransfer,
        range: ColorRange,
        w: u32,
        h: u32,
        stride_px: u32,
        data: Vec<u8>,
    ) -> (r: Result<DecodedPackedView, Error>)
        requires
            data@.len() >= h * stride_px * (match bpp_of(fmt) {
                Some(b) => b,
                None => 0,
            }),
        ensures
            match r {
                Ok(v) => bpp_of(fmt) matches Some(bpp) && v == (DecodedPackedView {
                    fmt,
                    cg,
                    ct,
                    range,
                    w,
                    h,
                    stride_px,
                    data: v.data,
                    bpp,
                }) && v.data@ == data@ && v.wf(),
                Err(e) => bpp_of(fmt) is None && e.code == ErrorCode::InvalidParam,
            },
    {
        let bpp = match bytes_per_pixel(fmt) {
            Ok(b) => b,
            Err(e) => {
                return Err(e);
            },
        };
        Ok(DecodedPackedView { fmt, cg, ct, range, w, h, stride_px, data, bpp })
    }

    /// Logical width in pixels.
    pub fn width(&self) -> (r: u32)
        ensures
            r == self.w,
    {
        self.w
    }

    /// Logical height in pixels.
    pub fn height(&self) -> (r: u32)
        ensures
            r == self.h,
    {
        self.h
    }

    /// Pixel layout of the view.
    pub fn fmt(&self) -> (r: ImgFormat)
        ensures
            r == self.fmt,
    {
        self.fmt
    }

    /// Color metadata of the view.
    pub fn meta(&self) -> (r: (ColorGamut, ColorTransfer, ColorRange))
        ensures
            r == (self.cg, self.ct, self.range),
    {
        (self.cg, self.ct, self.range)
    }

    /// Override the color gamut metadata attached to this view.
    pub fn set_color_gamut(&mut self, cg: ColorGamut)
        ensures
            *final(self) == (DecodedPackedView { cg, ..*old(self) }),
    {
        self.cg = cg;
    }

    /// Override the transfer-function metadata attached to this view.
    pub fn set_color_transfer(&mut self, ct: ColorTransfer)
        ensures
            *final(self) == (DecodedPackedView { ct, ..*old(self) }),
    {
        self.ct = ct;
    }

    /// Override the range metadata attached to this view.
    pub fn set_color_range(&mut self, range: ColorRange)
        ensures
            *final(self) == (DecodedPackedView { range, ..*old(self) }),
    {
        self.range = range;
    }

    /// Borrow a single packed row by index.
    pub fn row(&self, y: usize) -> (r: Result<&[u8], Error>)
        requires
            self.wf(),
        ensures
            match r {
                Ok(b) => y < self.h && self.stride_px >= self.w && b@ == self.data@.subrange(
                    y * self.stride_px * self.bpp,
                    y * self.stride_px * self.bpp + self.w * self.bpp,
                ),
                Err(e) => (y >= self.h || self.stride_px < self.w) && e.code
                    == ErrorCode::InvalidParam,
            },
    {
        if y >= self.h as usize {
            return Err(Error::invalid_param("row out of range"));
        }
        if self.stride_px < self.w {
            return Err(Error::invalid_param("stride smaller than width"));
        }
        let dlen = self.data.len();
        proof {
            assert(self.stride_px * self.bpp <= self.h * self.stride_px * self.bpp && self.w as int
                * self.bpp <= self.stride_px * self.bpp) by (nonlinear_arith)
                requires
                    self.h >= 1 && 0 <= self.bpp && 0 <= self.w <= self.stride_px,
            ;
            lemma_row_bounds(
                self.h as int,
                self.stride_px as int,
                self.bpp as int,
                self.w as int,
                y as int,
                self.data@.len() as int,
            );
        }
        let stride_bytes = (self.stride_px as usize) * self.bpp;
        let row_bytes = (self.w as usize) * self.bpp;
        let start = y * stride_bytes;
        Ok(vstd::slice::slice_subrange(self.data.as_slice(), start, start + row_bytes))
    }

    /// Copy the pixels into an owned buffer, dropping the stride padding.
    pub fn to_owned(&self) -> (r: Result<DecodedPacked, Error>)
        requires
            self.wf(),
        ensures
            match r {
                Ok(d) => self.stride_px >= self.w && d.fmt == self.fmt && d.cg == self.cg && d.ct
                    == self.ct && d.range == self.range && d.width == self.w && d.height == self.h
                    && d.data@.len() == self.h * self.w * self.bpp && (forall|y: int|
                    0 <= y < self.h ==> #[trigger] row_at(d.data@, y, self.w * self.bpp)
                        == strided_row_at(
                        self.data@,
                        y,
                        self.stride_px * self.bpp,
                        self.w * self.bpp,
                    )),
                Err(e) => (self.stride_px == 0 || self.stride_px < self.w) && e.code
                    == ErrorCode::InvalidParam,
            },
    {
        let data = match copy_raw_packed(self) {
            Ok(d) => d,
            Err(e) => {
                return Err(e);
            },
        };
        Ok(
            DecodedPacked {
                fmt: self.fmt,
                cg: self.cg,
                ct: self.ct,
                range: self.range,
                width: self.w,
                height: self.h,
                data,
            },
        )
    }
}

proof fn lemma_row_bounds(h: int, stride: int, bpp: int, w: int, y: int, dlen: int)
    requires
        0 <= y < h,
        0 <= w <= stride,
        0 <= bpp <= 8,
        stride <= u32::MAX,
        h <= u32::MAX,
        dlen >= h * stride * bpp,
    ensures
        y * (stride * bpp) + w * bpp <= dlen,
        y * (stride * bpp) == y * stride * bpp,
        stride * bpp <= u32::MAX as int * 8,
        y * (stride * bpp) <= dlen,
{
    assert((y + 1) * (stride * bpp) <= h * (stride * bpp) && w * bpp <= stride * bpp && y * (stride
        * bpp) + stride * bpp == (y + 1) * (stride * bpp) && y * (stride * bpp) == y * stride * bpp
        && h * (stride * bpp) == h * stride * bpp && stride * bpp <= u32::MAX as int * 8 && y
        * (stride * bpp) >= 0) by (nonlinear_arith)
        requires
            0 <= y < h,
            0 <= w <= stride,
            0 <= bpp <= 8,
            stride <= u32::MAX,
            h <= u32::MAX,
    ;
}

/// Copy a packed plane into an owned buffer row by row, honoring the stride.
pub fn copy_raw_packed(img: &DecodedPackedView) -> (r: Result<Vec<u8>, Error>)
    requires
        img.wf(),
    ensures
        match r {
            Ok(d) => img.stride_px >= img.w && d@.len() == img.h * img.w * img.bpp && (forall|
                y: int,
            |
                0 <= y < img.h ==> #[trigger] row_at(d@, y, img.w * img.bpp) == strided_row_at(
                    img.data@,
                    y,
                    img.stride_px * img.bpp,
                    img.w * img.bpp,
                )),
            Err(e) => (img.stride_px == 0 || img.stride_px < img.w) && e.code
                == ErrorCode::InvalidParam,
        },
{
    if img.stride_px == 0 {
        return Err(Error::invalid_param("zero stride"));
    }
    if img.stride_px < img.w {
        return Err(Error::invalid_param("stride smaller than width"));
    }
    if img.h == 0 {
        let out: Vec<u8> = Vec::new();
        proof {
            assert(img.h * img.w as int * img.bpp == 0) by (nonlinear_arith)
                requires
                    img.h == 0,
            ;
        }
        return Ok(out);
    }
    proof {
        assert(img.stride_px * img.bpp <= img.h * img.stride_px * img.bpp && img.w as int * img.bpp
            <= img.stride_px * img.bpp) by (nonlinear_arith)
            requires
                img.h >= 1 && 0 < img.stride_px <= u32::MAX && 0 <= img.bpp && img.w
                    <= img.stride_px,
        ;
    }
    let dlen = img.data.len();
    let stride_bytes = (img.stride_px as usize) * img.bpp;
    let row_bytes = (img.w as usize) * img.bpp;
    let mut out: Vec<u8> = Vec::new();
    let mut y: usize = 0;
    while y < img.h as usize
        invariant
            img.wf(),
            0 <= y <= img.h,
            img.stride_px >= img.w,
            img.stride_px > 0,
            stride_bytes == img.stride_px * img.bpp,
            row_bytes == img.w * img.bpp,
            dlen == img.data@.len(),
            out@.len() == y * row_bytes,
            forall|y2: int|
                0 <= y2 < y ==> #[trigger] row_at(out@, y2, img.w * img.bpp) == strided_row_at(
                    img.data@,
                    y2,
                    img.stride_px * img.bpp,
                    img.w * img.bpp,
                ),
        decreases img.h - y,
    {
        proof {
            lemma_row_bounds(
                img.h as int,
                img.stride_px as int,
                img.bpp as int,
                img.w as int,
                y as int,
                img.data@.len() as int,
            );
            assert((y + 1) * row_bytes == y * row_bytes + row_bytes) by (nonlinear_arith);
        }
        let start = y * stride_bytes;
        let row = vstd::slice::slice_subrange(img.data.as_slice(), start, start + row_bytes);
        let ghost out_before = out@;
        out.extend_from_slice(row);
        proof {
            assert forall|y2: int|
                0 <= y2 < y + 1 implies #[trigger] row_at(out@, y2, img.w as int * img.bpp)
                == strided_row_at(
                img.data@,
                y2,
                img.stride_px as int * img.bpp,
                img.w as int * img.bpp,
            ) by {
                assert((y2 + 1) * (img.w as int * img.bpp) == y2 * (img.w as int * img.bpp) + (
                img.w as int * img.bpp)) by (nonlinear_arith);
                assert(0 <= y2 * (img.w as int * img.bpp)) by (nonlinear_arith)
                    requires
                        y2 >= 0,
                ;
                assert(y2 * (img.w as int * img.bpp) <= y * (img.w as int * img.bpp) && (y2 + 1) * (
                img.w as int * img.bpp) <= (y + 1) * (img.w as int * img.bpp)) by (nonlinear_arith)
                    requires
                        y2 <= y && img.w as int * img.bpp >= 0,
                ;
                if y2 < y {
                    assert((y2 + 1) * (img.w as int * img.bpp) <= y * (img.w as int * img.bpp))
                        by (nonlinear_arith)
                        requires
                            y2 + 1 <= y && img.w as int * img.bpp >= 0,
                    ;
                    assert(row_at(out@, y2, img.w as int * img.bpp) =~= row_at(
                        out_before,
                        y2,
                        img.w as int * img.bpp,
                    ));
                    assert(row_at(out_before, y2, img.w as int * img.bpp) == strided_row_at(
                        img.data@,
                        y2,
                        img.stride_px as int * img.bpp,
                        img.w as int * img.bpp,
                    ));
                } else {
                    assert(row_at(out@, y2, img.w as int * img.bpp) =~= row@);
                    assert(strided_row_at(
                        img.data@,
                        y2,
                        img.stride_px as int * img.bpp,
                        img.w as int * img.bpp,
                    ) == row@);
                }
            }
        }
        y += 1;
    }
    proof {
        assert(out@.len() == img.h * (img.w as int * img.bpp));
        assert(img.h * (img.w as int * img.bpp) == img.h * img.w * img.bpp) by (nonlinear_arith);
    }
    Ok(out)
}

} // verus!
