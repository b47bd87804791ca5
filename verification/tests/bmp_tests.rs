use scop_core::bmp::decode::{decode_bmp, BmpError};
use scop_core::bmp::types::{BmpVersion, CompressionType, Image, ImageIndex, Pixel};

/// Builds a BMP byte stream with the given geometry and raw pixel rows.
fn build_bmp(
    width: i32,
    height: i32,
    bits_per_pixel: u16,
    compression: u32,
    rows: &[u8],
) -> Vec<u8> {
    let mut d = Vec::new();
    d.push(0x42u8);
    d.push(0x4Du8);
    let pixel_offset: u32 = 54;
    let file_size = pixel_offset + rows.len() as u32;
    d.extend_from_slice(&file_size.to_le_bytes());
    d.extend_from_slice(&0u16.to_le_bytes());
    d.extend_from_slice(&0u16.to_le_bytes());
    d.extend_from_slice(&pixel_offset.to_le_bytes());
    d.extend_from_slice(&40u32.to_le_bytes());
    d.extend_from_slice(&width.to_le_bytes());
    d.extend_from_slice(&height.to_le_bytes());
    d.extend_from_slice(&1u16.to_le_bytes());
    d.extend_from_slice(&bits_per_pixel.to_le_bytes());
    d.extend_from_slice(&compression.to_le_bytes());
    d.extend_from_slice(&(rows.len() as u32).to_le_bytes());
    d.extend_from_slice(&1000i32.to_le_bytes());
    d.extend_from_slice(&1000i32.to_le_bytes());
    d.extend_from_slice(&0u32.to_le_bytes());
    d.extend_from_slice(&0u32.to_le_bytes());
    assert_eq!(d.len(), 54);
    d.extend_from_slice(rows);
    d
}

#[test]
fn decodes_24bit_with_row_padding() {
    // Width 3: each row holds 9 pixel bytes plus 3 bytes of padding.
    // Stored bottom-up: first stored row is the bottom of the image.
    let rows: Vec<u8> = vec![
        // bottom row: pixels (B,G,R) = red, green, blue
        0, 0, 255, 0, 255, 0, 255, 0, 0, 0xAA, 0xAA, 0xAA,
        // top row: white, black, gray
        255, 255, 255, 0, 0, 0, 128, 128, 128, 0xBB, 0xBB, 0xBB,
    ];
    let d = build_bmp(3, 2, 24, 0, &rows);
    let img = decode_bmp(&d).expect("well-formed 24-bit BMP should decode");
    assert_eq!(img.get_width(), 3);
    assert_eq!(img.get_height(), 2);
    // get_pixel addresses the grid top-down: (0, 0) is the last stored row.
    assert_eq!(img.get_pixel(0, 0), Pixel::new(255, 255, 255));
    assert_eq!(img.get_pixel(1, 0), Pixel::new(0, 0, 0));
    assert_eq!(img.get_pixel(2, 0), Pixel::new(128, 128, 128));
    // The bottom of the image is the first stored row; padding was skipped.
    assert_eq!(img.get_pixel(0, 1), Pixel::new(255, 0, 0));
    assert_eq!(img.get_pixel(1, 1), Pixel::new(0, 255, 0));
    assert_eq!(img.get_pixel(2, 1), Pixel::new(0, 0, 255));
}

#[test]
fn rejects_8bit_paletted() {
    let rows = [0u8; 8];
    let d = build_bmp(2, 2, 8, 0, &rows);
    assert_eq!(
        decode_bmp(&d),
        Err(BmpError::UnsupportedBitDepth { bits: 8 })
    );
}

#[test]
fn rejects_bad_signature() {
    let rows = [0u8; 16];
    let mut d = build_bmp(2, 2, 24, 0, &rows);
    d[0] = b'X';
    assert_eq!(decode_bmp(&d), Err(BmpError::BadSignature));
}

#[test]
fn rejects_truncated_pixel_data() {
    let rows = [0u8; 16]; // needs 2 rows of 8 bytes each
    let mut d = build_bmp(2, 2, 24, 0, &rows);
    d.truncate(d.len() - 1);
    assert_eq!(decode_bmp(&d), Err(BmpError::Truncated));
}

#[test]
fn rejects_negative_height() {
    let rows = [0u8; 16];
    let d = build_bmp(2, -2, 24, 0, &rows);
    assert_eq!(decode_bmp(&d), Err(BmpError::NonPositiveHeight { height: -2 }));
}

#[test]
fn rejects_rle_compression() {
    let rows = [0u8; 16];
    let d = build_bmp(2, 2, 24, 1, &rows);
    assert_eq!(
        decode_bmp(&d),
        Err(BmpError::UnsupportedCompression { code: 1 })
    );
}

#[test]
fn rejects_32bit_without_mask_header() {
    // A 32-bit image whose stream ends right after the DIB header lacks
    // the twenty color-mask bytes.
    let d = build_bmp(0, 1, 32, 0, &[]);
    assert_eq!(decode_bmp(&d), Err(BmpError::BadColorMask));
}

#[test]
fn decodes_32bit_with_expected_masks() {
    let mut d = Vec::new();
    d.push(0x42u8);
    d.push(0x4Du8);
    let pixel_offset: u32 = 74;
    d.extend_from_slice(&(pixel_offset + 4).to_le_bytes());
    d.extend_from_slice(&0u16.to_le_bytes());
    d.extend_from_slice(&0u16.to_le_bytes());
    d.extend_from_slice(&pixel_offset.to_le_bytes());
    d.extend_from_slice(&40u32.to_le_bytes());
    d.extend_from_slice(&1i32.to_le_bytes());
    d.extend_from_slice(&1i32.to_le_bytes());
    d.extend_from_slice(&1u16.to_le_bytes());
    d.extend_from_slice(&32u16.to_le_bytes());
    d.extend_from_slice(&3u32.to_le_bytes());
    d.extend_from_slice(&4u32.to_le_bytes());
    d.extend_from_slice(&1000i32.to_le_bytes());
    d.extend_from_slice(&1000i32.to_le_bytes());
    d.extend_from_slice(&0u32.to_le_bytes());
    d.extend_from_slice(&0u32.to_le_bytes());
    d.extend_from_slice(&0x00FF0000u32.to_le_bytes());
    d.extend_from_slice(&0x0000FF00u32.to_le_bytes());
    d.extend_from_slice(&0x000000FFu32.to_le_bytes());
    d.extend_from_slice(&0xFF000000u32.to_le_bytes());
    d.extend_from_slice(&0x57696E20u32.to_le_bytes());
    assert_eq!(d.len(), 74);
    // one pixel, B G R A; alpha is discarded
    d.extend_from_slice(&[10, 20, 30, 99]);
    let img = decode_bmp(&d).expect("32-bit BMP with the expected masks should decode");
    assert_eq!(img.get_pixel(0, 0), Pixel::new(30, 20, 10));
}

#[test]
fn rejects_32bit_with_wrong_mask() {
    let rows = [0u8; 24];
    let mut d = build_bmp(1, 1, 32, 3, &rows);
    // the mask words after the DIB header do not match the signature
    assert_eq!(decode_bmp(&d), Err(BmpError::BadColorMask));
    d[54] = 0;
    assert_eq!(decode_bmp(&d), Err(BmpError::BadColorMask));
}

#[test]
fn rejects_negative_width() {
    let rows = [0u8; 16];
    let d = build_bmp(-2, 2, 24, 0, &rows);
    assert_eq!(decode_bmp(&d), Err(BmpError::NegativeWidth { width: -2 }));
}

#[test]
fn rejects_oversized_pixel_grid() {
    // 0x10000 x 0x10000 pixels would overflow the 32-bit pixel count;
    // the size check comes before the data-length check.
    let d = build_bmp(0x10000, 0x10000, 24, 0, &[]);
    assert_eq!(
        decode_bmp(&d),
        Err(BmpError::TooLarge { width: 0x10000, height: 0x10000 })
    );
}

#[test]
fn rejects_unknown_header_size() {
    let rows = [0u8; 16];
    let mut d = build_bmp(2, 2, 24, 0, &rows);
    d[14] = 39;
    assert_eq!(
        decode_bmp(&d),
        Err(BmpError::UnsupportedHeader { header_size: 39 })
    );
}

#[test]
fn version_follows_dib_header_size() {
    let d = build_bmp(2, 2, 24, 0, &[0u8; 16]);
    let img = decode_bmp(&d).unwrap();
    assert_eq!(
        BmpVersion::from_dib_header(&img.dib_header),
        Some(BmpVersion::Three)
    );
    let mut dib = img.dib_header.clone();
    dib.header_size = 12;
    assert_eq!(BmpVersion::from_dib_header(&dib), Some(BmpVersion::Two));
    dib.header_size = 40;
    dib.compress_type = 3;
    assert_eq!(BmpVersion::from_dib_header(&dib), Some(BmpVersion::ThreeNT));
    dib.header_size = 108;
    assert_eq!(BmpVersion::from_dib_header(&dib), Some(BmpVersion::Four));
    dib.header_size = 124;
    assert_eq!(BmpVersion::from_dib_header(&dib), Some(BmpVersion::Five));
    dib.header_size = 0;
    assert_eq!(BmpVersion::from_dib_header(&dib), None);
}

#[test]
fn compression_codes_map_to_variants() {
    assert_eq!(CompressionType::from_u32(0), CompressionType::Uncompressed);
    assert_eq!(CompressionType::from_u32(1), CompressionType::Rle8bit);
    assert_eq!(CompressionType::from_u32(2), CompressionType::Rle4bit);
    assert_eq!(CompressionType::from_u32(3), CompressionType::BitfieldsEncoding);
    assert_eq!(CompressionType::from_u32(7), CompressionType::Uncompressed);
}

#[test]
fn new_image_starts_black_and_set_pixel_sticks() {
    let mut img = Image::new(4, 3);
    assert_eq!(img.get_width(), 4);
    assert_eq!(img.get_height(), 3);
    assert_eq!(img.get_pixel(2, 1), Pixel::new(0, 0, 0));
    img.set_pixel(2, 1, Pixel::new(9, 8, 7));
    assert_eq!(img.get_pixel(2, 1), Pixel::new(9, 8, 7));
    assert_eq!(img.get_pixel(2, 2), Pixel::new(0, 0, 0));
}

#[test]
fn coordinates_walk_row_major_top_down() {
    let img = Image::new(2, 2);
    let mut it = img.coordinates();
    assert_eq!(it.next(), Some((0, 0)));
    assert_eq!(it.next(), Some((1, 0)));
    assert_eq!(it.next(), Some((0, 1)));
    assert_eq!(it.next(), Some((1, 1)));
    assert_eq!(it.next(), None);
}

#[test]
fn image_index_new_starts_at_origin() {
    let mut it = ImageIndex::new(1, 1);
    assert_eq!(it.next(), Some((0, 0)));
    assert_eq!(it.next(), None);
}
