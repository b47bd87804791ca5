//! Decoding of BMP byte streams into `Image` values.
//!
//! The layout is little-endian throughout: a 14-byte file header starting
//! with the signature `BM`, a DIB header whose declared size selects the
//! variant, for 32-bit images a color-mask header, and the pixel array in
//! bottom-up row order with each row padded to a four-byte boundary.

use vstd::prelude::*;

use super::types::{BmpDibHeader, BmpHeader, BmpVersion, CompressionType, Image, Pixel};
use super::types::{spec_compression_of, spec_version_of};

verus! {

/// Why a byte stream was rejected.
#[derive(Clone, Copy, Debug, Eq, PartialEq, Structural)]
pub enum BmpError {
    /// The first two bytes are not the `BM` signature.
    BadSignature,
    /// The stream ends before the headers or the pixel array do.
    Truncated,
    /// The declared DIB header size names no supported variant.
    UnsupportedHeader { header_size: u32 },
    /// Only 24-bit and 32-bit pixels are supported.
    UnsupportedBitDepth { bits: u16 },
    /// Run-length encodings, and bitfields at 24 bits, are not supported.
    UnsupportedCompression { code: u32 },
    /// Rows must be stored bottom-up, so the height must be positive.
    NonPositiveHeight { height: i32 },
    /// The declared width is negative.
    NegativeWidth { width: i32 },
    /// A 32-bit image lacks the color-mask header, or its masks or
    /// color-space tag differ from the expected signature.
    BadColorMask,
    /// The pixel grid would not fit in a 32-bit count.
    TooLarge { width: i32, height: i32 },
}

/// The little-endian 16-bit value at offset `i`.
pub open spec fn u16_at(d: Seq<u8>, i: int) -> int {
    d[i] + d[i + 1] * 0x100
}

/// The little-endian 32-bit value at offset `i`.
pub open spec fn u32_at(d: Seq<u8>, i: int) -> int {
    d[i] + d[i + 1] * 0x100 + d[i + 2] * 0x10000 + d[i + 3] * 0x1000000
}

/// The little-endian 32-bit value at offset `i`, read as a two's-complement
/// signed integer.
pub open spec fn i32_at(d: Seq<u8>, i: int) -> int {
    if u32_at(d, i) < 0x80000000 {
        u32_at(d, i)
    } else {
        u32_at(d, i) - 0x100000000
    }
}

/// Reads the little-endian 16-bit value at offset `i`.
fn read_u16(d: &[u8], i: usize) -> (r: u16)
    requires
        i + 2 <= d@.len(),
    ensures
        r == u16_at(d@, i as int),
{
    d[i] as u16 + d[i + 1] as u16 * 0x100
}

/// Reads the little-endian 32-bit value at offset `i`.
fn read_u32(d: &[u8], i: usize) -> (r: u32)
    requires
        i + 4 <= d@.len(),
    ensures
        r == u32_at(d@, i as int),
{
    d[i] as u32 + d[i + 1] as u32 * 0x100 + d[i + 2] as u32 * 0x10000 + d[i + 3] as u32
        * 0x1000000
}

/// Reads the little-endian 32-bit value at offset `i` as a signed integer.
fn read_i32(d: &[u8], i: usize) -> (r: i32)
    requires
        i + 4 <= d@.len(),
    ensures
        r == i32_at(d@, i as int),
{
    let v = read_u32(d, i);
    if v < 0x80000000 {
        v as i32
    } else {
        (v as i64 - 0x100000000) as i32
    }
}

/// The file header encoded at the head of the stream.
pub open spec fn spec_file_header(d: Seq<u8>) -> BmpHeader {
    BmpHeader {
        file_size: u32_at(d, 2) as u32,
        creator1: u16_at(d, 6) as u16,
        creator2: u16_at(d, 8) as u16,
        pixel_offset: u32_at(d, 10) as u32,
    }
}

/// The forty-byte DIB header encoded at offset 14.
pub open spec fn spec_dib_header(d: Seq<u8>) -> BmpDibHeader {
    BmpDibHeader {
        header_size: u32_at(d, 14) as u32,
        width: i32_at(d, 18) as i32,
        height: i32_at(d, 22) as i32,
        num_planes: u16_at(d, 26) as u16,
        bits_per_pixel: u16_at(d, 28) as u16,
        compress_type: u32_at(d, 30) as u32,
        data_size: u32_at(d, 34) as u32,
        hres: i32_at(d, 38) as i32,
        vres: i32_at(d, 42) as i32,
        num_colors: u32_at(d, 46) as u32,
        num_imp_colors: u32_at(d, 50) as u32,
    }
}

/// Bytes per stored pixel: three at 24 bits, four at 32 bits.
pub open spec fn spec_bytes_per_pixel(d: Seq<u8>) -> nat {
    if spec_dib_header(d).bits_per_pixel == 24 {
        3
    } else {
        4
    }
}

/// Bytes per stored row, padded up to a multiple of four.
pub open spec fn spec_stride(d: Seq<u8>) -> int {
    ((spec_dib_header(d).width * spec_bytes_per_pixel(d) + 3) / 4) * 4
}

/// The pixel stored for column `x` of disk row `row` (disk rows run bottom
/// to top); on disk the channel order is blue, green, red.
pub open spec fn spec_stored_pixel(d: Seq<u8>, row: int, x: int) -> Pixel {
    let base = spec_file_header(d).pixel_offset + row * spec_stride(d) + x
        * spec_bytes_per_pixel(d);
    Pixel { r: d[base + 2], g: d[base + 1], b: d[base] }
}

/// The masks and color-space tag that a 32-bit image must declare: red,
/// green, blue and alpha channel masks in that order, then the tag `Win `.
pub open spec fn spec_mask_ok(d: Seq<u8>) -> bool {
    &&& u32_at(d, 54) == 0x00FF0000
    &&& u32_at(d, 58) == 0x0000FF00
    &&& u32_at(d, 62) == 0x000000FF
    &&& u32_at(d, 66) == 0xFF000000
    &&& u32_at(d, 70) == 0x57696E20
}

/// The first reason, if any, for which the stream is rejected; the checks
/// run in this order.
pub open spec fn spec_decode_err(d: Seq<u8>) -> Option<BmpError> {
    if d.len() < 2 {
        Some(BmpError::Truncated)
    } else if !(d[0] == 0x42 && d[1] == 0x4D) {
        Some(BmpError::BadSignature)
    } else if d.len() < 54 {
        Some(BmpError::Truncated)
    } else {
        let dib = spec_dib_header(d);
        let comp = spec_compression_of(dib.compress_type);
        if spec_version_of(dib) is None {
            Some(BmpError::UnsupportedHeader { header_size: dib.header_size })
        } else if comp == CompressionType::Rle8bit || comp == CompressionType::Rle4bit {
            Some(BmpError::UnsupportedCompression { code: dib.compress_type })
        } else if dib.height < 1 {
            Some(BmpError::NonPositiveHeight { height: dib.height })
        } else if dib.width < 0 {
            Some(BmpError::NegativeWidth { width: dib.width })
        } else if !(dib.bits_per_pixel == 24 || dib.bits_per_pixel == 32) {
            Some(BmpError::UnsupportedBitDepth { bits: dib.bits_per_pixel })
        } else if dib.bits_per_pixel == 24 && comp == CompressionType::BitfieldsEncoding {
            Some(BmpError::UnsupportedCompression { code: dib.compress_type })
        } else if dib.bits_per_pixel == 32 && d.len() < 74 {
            Some(BmpError::BadColorMask)
        } else if dib.bits_per_pixel == 32 && !spec_mask_ok(d) {
            Some(BmpError::BadColorMask)
        } else if dib.width * dib.height > u32::MAX {
            Some(BmpError::TooLarge { width: dib.width, height: dib.height })
        } else if spec_file_header(d).pixel_offset + dib.height * spec_stride(d) > d.len() {
            Some(BmpError::Truncated)
        } else {
            None
        }
    }
}

proof fn mul_le_mono(a: int, b: int, c: int)
    by (nonlinear_arith)
    requires
        0 <= a <= b,
        0 <= c,
    ensures
        a * c <= b * c,
{
}

proof fn mul_bound(a: int, b: int, c: int, e: int)
    by (nonlinear_arith)
    requires
        0 <= a <= c,
        0 <= b <= e,
    ensures
        0 <= a * b <= c * e,
{
}

proof fn mul_distrib(a: int, b: int)
    by (nonlinear_arith)
    ensures
        (a + 1) * b == a * b + b,
{
}

/// The pixel whose blue channel byte sits at
/// `offset + row * stride + x * bpb`, with green and red following it.
pub open spec fn stored_pixel_at(d: Seq<u8>, offset: int, stride: int, bpb: int, row: int, x: int) -> Pixel {
    let base = offset + row * stride + x * bpb;
    Pixel { r: d[base + 2], g: d[base + 1], b: d[base] }
}

/// Reads `h` rows of `w` pixels each, `bpb` bytes per pixel and `stride`
/// bytes per row, starting at `offset`; the rows land in the result in
/// storage order.
fn read_pixels(d: &[u8], offset: u64, w: u64, h: u64, bpb: u64, stride: u64) -> (data: Vec<Pixel>)
    requires
        3 <= bpb,
        w * bpb <= stride,
        offset + h * stride <= d@.len(),
    ensures
        data@.len() == h * w,
        forall|row: int, x: int|
            0 <= row < h && 0 <= x < w ==> data@[row * w + x] == stored_pixel_at(
                d@,
                offset as int,
                stride as int,
                bpb as int,
                row,
                x,
            ),
{
    let mut data: Vec<Pixel> = Vec::new();
    let mut row: u64 = 0;
    let dlen: usize = d.len();
    proof {
        assert(d@.len() == dlen);
    }
    while row < h
        invariant
            0 <= row <= h,
            3 <= bpb,
            w * bpb <= stride,
            offset + h * stride <= d@.len(),
            d@.len() <= usize::MAX,
            data@.len() == row * w,
            forall|rr: int, x: int|
                0 <= rr < row && 0 <= x < w ==> data@[rr * w + x] == stored_pixel_at(
                    d@,
                    offset as int,
                    stride as int,
                    bpb as int,
                    rr,
                    x,
                ),
        decreases h - row,
    {
        proof {
            mul_le_mono(row as int + 1, h as int, stride as int);
            mul_distrib(row as int, stride as int);
            mul_le_mono(row as int + 1, h as int, w as int);
            mul_distrib(row as int, w as int);
        }
        let row_base: u64 = offset + row * stride;
        let mut x: u64 = 0;
        while x < w
            invariant
                0 <= x <= w,
                0 <= row < h,
                3 <= bpb,
                w * bpb <= stride,
                offset + h * stride <= d@.len(),
                d@.len() <= usize::MAX,
                row_base == offset + row * stride,
                row_base + stride <= d@.len(),
                data@.len() == row * w + x,
                forall|rr: int, xx: int|
                    0 <= rr < row && 0 <= xx < w ==> data@[rr * w + xx] == stored_pixel_at(
                        d@,
                        offset as int,
                        stride as int,
                        bpb as int,
                        rr,
                        xx,
                    ),
                forall|xx: int|
                    0 <= xx < x ==> data@[row * w + xx] == stored_pixel_at(
                        d@,
                        offset as int,
                        stride as int,
                        bpb as int,
                        row as int,
                        xx,
                    ),
            decreases w - x,
        {
            proof {
                mul_le_mono(x as int + 1, w as int, bpb as int);
                mul_distrib(x as int, bpb as int);
                assert(x * bpb + bpb <= w * bpb);
            }
            let base: u64 = row_base + x * bpb;
            proof {
                assert(base + bpb <= row_base + stride);
                assert(base + 2 < d@.len());
            }
            let bi = base as usize;
            let px = Pixel { r: d[bi + 2], g: d[bi + 1], b: d[bi] };
            proof {
                assert(px == stored_pixel_at(
                    d@,
                    offset as int,
                    stride as int,
                    bpb as int,
                    row as int,
                    x as int,
                ));
            }
            data.push(px);
            x = x + 1;
            proof {
                assert forall|rr: int, xx: int|
                    0 <= rr < row && 0 <= xx < w implies data@[rr * w + xx] == stored_pixel_at(
                    d@,
                    offset as int,
                    stride as int,
                    bpb as int,
                    rr,
                    xx,
                ) by {
                    mul_le_mono(rr + 1, row as int, w as int);
                    mul_distrib(rr, w as int);
                    assert(rr * w + xx < row * w);
                }
                assert forall|xx: int|
                    0 <= xx < x implies data@[row * w + xx] == stored_pixel_at(
                    d@,
                    offset as int,
                    stride as int,
                    bpb as int,
                    row as int,
                    xx,
                ) by {
                    if xx == x - 1 {
                        assert(data@[row * w + xx] == px);
                    }
                }
            }
        }
        row = row + 1;
        proof {
            assert(data@.len() == row * w);
        }
    }
    proof {
        assert(data@.len() == h * w);
    }
    data
}

/// Decodes a BMP byte stream into a top-down pixel grid.
///
/// On success the returned image carries the decoded headers, and entry
/// `row * width + x` of its pixel vector is the stored pixel of disk row
/// `row`, so that `get_pixel` addresses the grid top-down while rows are
/// stored bottom-up.
pub fn decode_bmp(d: &[u8]) -> (r: Result<Image, BmpError>)
    ensures
        r is Err <==> spec_decode_err(d@) is Some,
        r is Err ==> r == Err::<Image, BmpError>(spec_decode_err(d@)->0),
        r matches Ok(img) ==> {
            &&& img.header == spec_file_header(d@)
            &&& img.dib_header == spec_dib_header(d@)
            &&& img.color_palette is None
            &&& img.width == spec_dib_header(d@).width
            &&& img.height == spec_dib_header(d@).height
            &&& img.padding == spec_stride(d@) - spec_dib_header(d@).width
                * spec_bytes_per_pixel(d@)
            &&& img.grid_wf()
            &&& forall|row: int, x: int|
                0 <= row < img.height && 0 <= x < img.width ==> img.data@[row * img.width + x]
                    == spec_stored_pixel(d@, row, x)
        },
{
    if d.len() < 2 {
        return Err(BmpError::Truncated);
    }
    if !(d[0] == 0x42 && d[1] == 0x4D) {
        return Err(BmpError::BadSignature);
    }
    if d.len() < 54 {
        return Err(BmpError::Truncated);
    }
    let header = BmpHeader {
        file_size: read_u32(d, 2),
        creator1: read_u16(d, 6),
        creator2: read_u16(d, 8),
        pixel_offset: read_u32(d, 10),
    };
    let dib = BmpDibHeader {
        header_size: read_u32(d, 14),
        width: read_i32(d, 18),
        height: read_i32(d, 22),
        num_planes: read_u16(d, 26),
        bits_per_pixel: read_u16(d, 28),
        compress_type: read_u32(d, 30),
        data_size: read_u32(d, 34),
        hres: read_i32(d, 38),
        vres: read_i32(d, 42),
        num_colors: read_u32(d, 46),
        num_imp_colors: read_u32(d, 50),
    };
    proof {
        assert(header == spec_file_header(d@));
        assert(dib == spec_dib_header(d@));
    }
    if BmpVersion::from_dib_header(&dib).is_none() {
        return Err(BmpError::UnsupportedHeader { header_size: dib.header_size });
    }
    let comp = CompressionType::from_u32(dib.compress_type);
    match comp {
        CompressionType::Rle8bit => {
            return Err(BmpError::UnsupportedCompression { code: dib.compress_type });
        },
        CompressionType::Rle4bit => {
            return Err(BmpError::UnsupportedCompression { code: dib.compress_type });
        },
        _ => {},
    }
    if dib.height < 1 {
        return Err(BmpError::NonPositiveHeight { height: dib.height });
    }
    if dib.width < 0 {
        return Err(BmpError::NegativeWidth { width: dib.width });
    }
    if !(dib.bits_per_pixel == 24 || dib.bits_per_pixel == 32) {
        return Err(BmpError::UnsupportedBitDepth { bits: dib.bits_per_pixel });
    }
    let is_bitfields = match comp {
        CompressionType::BitfieldsEncoding => true,
        _ => false,
    };
    if dib.bits_per_pixel == 24 && is_bitfields {
        return Err(BmpError::UnsupportedCompression { code: dib.compress_type });
    }
    if dib.bits_per_pixel == 32 {
        if d.len() < 74 {
            return Err(BmpError::BadColorMask);
        }
        let mask_ok = read_u32(d, 54) == 0x00FF0000 && read_u32(d, 58) == 0x0000FF00 && read_u32(
            d,
            62,
        ) == 0x000000FF && read_u32(d, 66) == 0xFF000000 && read_u32(d, 70) == 0x57696E20;
        if !mask_ok {
            return Err(BmpError::BadColorMask);
        }
    }
    let w: u64 = dib.width as u64;
    let h: u64 = dib.height as u64;
    proof {
        mul_bound(w as int, h as int, 0x7FFFFFFF, 0x7FFFFFFF);
    }
    if w * h > 0xFFFF_FFFF {
        return Err(BmpError::TooLarge { width: dib.width, height: dib.height });
    }
    let bpb: u64 = if dib.bits_per_pixel == 24 {
        3
    } else {
        4
    };
    proof {
        mul_bound(w as int, bpb as int, 0x7FFFFFFF, 4);
    }
    let stride: u64 = ((w * bpb + 3) / 4) * 4;
    proof {
        assert(stride == spec_stride(d@));
        mul_bound(h as int, stride as int, 0x7FFFFFFF, 0x200000004);
    }
    let need: u128 = header.pixel_offset as u128 + h as u128 * stride as u128;
    if need > d.len() as u128 {
        return Err(BmpError::Truncated);
    }

    let offset: u64 = header.pixel_offset as u64;
    let data = read_pixels(d, offset, w, h, bpb, stride);
    proof {
        assert forall|row: int, x: int|
            0 <= row < h && 0 <= x < w implies data@[row * w + x] == spec_stored_pixel(
            d@,
            row,
            x,
        ) by {
            assert(data@[row * w + x] == stored_pixel_at(d@, offset as int, stride as int, bpb as int, row, x));
        }
    }

    let padding: u32 = (stride - w * bpb) as u32;
    let img = Image {
        header,
        dib_header: dib,
        color_palette: None,
        width: dib.width as u32,
        height: dib.height as u32,
        padding,
        data,
    };
    Ok(img)
}

/// The topmost row of the published grid is the last row physically
/// stored: reading the pixel at `(x, 0)` of a decoded image yields the
/// pixel stored for disk row `height - 1`.
pub proof fn lemma_top_row_is_last_stored(img: Image, d: Seq<u8>, x: int)
    requires
        img.grid_wf(),
        img.height >= 1,
        0 <= x < img.width,
        forall|row: int, xx: int|
            0 <= row < img.height && 0 <= xx < img.width ==> img.data@[row * img.width + xx]
                == spec_stored_pixel(d, row, xx),
    ensures
        img.spec_pixel(x, 0) == spec_stored_pixel(d, img.height - 1, x),
{
    assert(img.spec_pixel(x, 0) == img.data@[(img.height - 1) * img.width + x]);
}

} // verus!
