//! The in-memory form of a BMP image: headers, pixels, and the top-down
//! pixel grid with its accessors.

use vstd::prelude::*;

verus! {

/// One pixel, as red, green and blue channel bytes.
#[derive(Clone, Copy, Debug, Eq, PartialEq, Structural)]
pub struct Pixel {
    pub r: u8,
    pub g: u8,
    pub b: u8,
}

impl Pixel {
    /// Creates a new `Pixel` from its three channel values.
    pub fn new(r: u8, g: u8, b: u8) -> (p: Pixel)
        ensures
            p == (Pixel { r, g, b }),
    {
        Pixel { r, g, b }
    }
}

/// The BMP variant, selected by the declared size of the DIB header.
#[derive(Clone, Copy, Debug, Eq, PartialEq, Structural)]
pub enum BmpVersion {
    Two,
    Three,
    ThreeNT,
    Four,
    Five,
}

/// The compression code of the DIB header.
#[derive(Clone, Copy, Debug, Eq, PartialEq, Structural)]
pub enum CompressionType {
    Uncompressed,
    Rle8bit,
    Rle4bit,
    BitfieldsEncoding,
}

impl CompressionType {
    /// Maps a DIB compression code to its variant; codes other than 1, 2
    /// and 3 count as uncompressed.
    pub fn from_u32(val: u32) -> (c: CompressionType)
        ensures
            c == spec_compression_of(val),
    {
        match val {
            1 => CompressionType::Rle8bit,
            2 => CompressionType::Rle4bit,
            3 => CompressionType::BitfieldsEncoding,
            _ => CompressionType::Uncompressed,
        }
    }
}

/// The variant that a compression code selects.
pub open spec fn spec_compression_of(val: u32) -> CompressionType {
    if val == 1 {
        CompressionType::Rle8bit
    } else if val == 2 {
        CompressionType::Rle4bit
    } else if val == 3 {
        CompressionType::BitfieldsEncoding
    } else {
        CompressionType::Uncompressed
    }
}

/// The 14-byte BMP file header, minus the two signature bytes.
#[derive(Clone, Copy, Debug, Eq, PartialEq, Structural)]
pub struct BmpHeader {
    pub file_size: u32,
    pub creator1: u16,
    pub creator2: u16,
    pub pixel_offset: u32,
}

impl BmpHeader {
    /// Builds the file header for an image whose headers take
    /// `header_size` bytes and whose pixel array takes `data_size` bytes.
    pub fn new(header_size: u32, data_size: u32) -> (h: BmpHeader)
        requires
            header_size + data_size <= u32::MAX,
        ensures
            h == (BmpHeader {
                file_size: (header_size + data_size) as u32,
                creator1: 0u16,
                creator2: 0u16,
                pixel_offset: header_size,
            }),
    {
        BmpHeader {
            file_size: header_size + data_size,
            creator1: 0,  // unused
            creator2: 0,  // unused
            pixel_offset: header_size,
        }
    }
}

/// The 40-byte DIB header layout shared by the supported variants.
#[derive(Clone, Copy, Debug, Eq, PartialEq, Structural)]
pub struct BmpDibHeader {
    pub header_size: u32,
    pub width: i32,
    pub height: i32,
    pub num_planes: u16,
    pub bits_per_pixel: u16,
    pub compress_type: u32,
    pub data_size: u32,
    pub hres: i32,
    pub vres: i32,
    pub num_colors: u32,
    pub num_imp_colors: u32,
}

/// The size in bytes of one stored row of a 24-bit image `w` pixels wide:
/// three bytes per pixel, rounded up to a multiple of four.
pub open spec fn spec_row_size_24(w: nat) -> nat {
    ((w * 3 + 3) / 4) * 4
}

impl BmpVersion {
    /// Selects the BMP variant from the declared DIB header size, with the
    /// compression code telling the two forty-byte variants apart.
    pub fn from_dib_header(dib_header: &BmpDibHeader) -> (v: Option<BmpVersion>)
        ensures
            v == spec_version_of(*dib_header),
    {
        match dib_header.header_size {
            12 => Some(BmpVersion::Two),
            40 if dib_header.compress_type == 3 => Some(BmpVersion::ThreeNT),
            40 => Some(BmpVersion::Three),
            108 => Some(BmpVersion::Four),
            124 => Some(BmpVersion::Five),
            _ => None,
        }
    }
}

/// The variant that a DIB header's declared size selects.
pub open spec fn spec_version_of(dib: BmpDibHeader) -> Option<BmpVersion> {
    if dib.header_size == 12 {
        Some(BmpVersion::Two)
    } else if dib.header_size == 40 && dib.compress_type == 3 {
        Some(BmpVersion::ThreeNT)
    } else if dib.header_size == 40 {
        Some(BmpVersion::Three)
    } else if dib.header_size == 108 {
        Some(BmpVersion::Four)
    } else if dib.header_size == 124 {
        Some(BmpVersion::Five)
    } else {
        None
    }
}

impl BmpDibHeader {
    /// Builds the forty-byte DIB header of an uncompressed 24-bit image,
    /// with each stored row padded to a four-byte boundary.
    pub fn new(width: i32, height: i32) -> (h: BmpDibHeader)
        requires
            0 <= width,
            0 <= height,
            height * spec_row_size_24(width as nat) <= u32::MAX,
        ensures
            h == (BmpDibHeader {
                header_size: 40u32,
                width,
                height,
                num_planes: 1u16,
                bits_per_pixel: 24u16,
                compress_type: 0u32,
                data_size: (height * spec_row_size_24(width as nat)) as u32,
                hres: 1000i32,
                vres: 1000i32,
                num_colors: 0u32,
                num_imp_colors: 0u32,
            }),
    {
        let w = width as u32;
        let row_size: u64 = ((w as u64 * 3 + 3) / 4) * 4;
        let pixel_array_size: u64 = height as u64 * row_size;
        proof {
            assert(row_size == spec_row_size_24(width as nat));
            assert(pixel_array_size == height * spec_row_size_24(width as nat));
        }
        BmpDibHeader {
            header_size: 40,
            width,
            height,
            num_planes: 1,
            bits_per_pixel: 24,
            compress_type: 0,
            data_size: pixel_array_size as u32,
            hres: 1000,
            vres: 1000,
            num_colors: 0,
            num_imp_colors: 0,
        }
    }
}

/// A decoded image: a top-down, row-major pixel grid, where `(0, 0)` is the
/// upper left corner.
#[derive(Clone, Debug, Eq, PartialEq)]
pub struct Image {
    pub header: BmpHeader,
    pub dib_header: BmpDibHeader,
    pub color_palette: Option<Vec<Pixel>>,
    pub width: u32,
    pub height: u32,
    pub padding: u32,
    pub data: Vec<Pixel>,
}

impl Image {
    /// The grid holds one pixel for each coordinate pair, stored with the
    /// bottom row first, as on disk.
    pub open spec fn grid_wf(self) -> bool {
        &&& self.data@.len() == self.width * self.height
        &&& self.width * self.height <= u32::MAX
    }

    /// The pixel that `get_pixel(x, y)` returns: row `y` counts from the
    /// top of the image, while rows are stored bottom first.
    pub open spec fn spec_pixel(self, x: int, y: int) -> Pixel {
        self.data@[(self.height - y - 1) * self.width + x]
    }

    /// Creates an image of the given size with every pixel black.
    pub fn new(width: u32, height: u32) -> (img: Image)
        requires
            width <= i32::MAX,
            height <= i32::MAX,
            width * height <= u32::MAX,
            54 + height * spec_row_size_24(width as nat) <= u32::MAX,
        ensures
            img.grid_wf(),
            img.width == width,
            img.height == height,
            forall|i: int|
                0 <= i < img.data@.len() ==> img.data@[i] == (Pixel { r: 0u8, g: 0u8, b: 0u8 }),
            img.header == (BmpHeader {
                file_size: (54 + height * spec_row_size_24(width as nat)) as u32,
                creator1: 0u16,
                creator2: 0u16,
                pixel_offset: 54u32,
            }),
            img.dib_header.header_size == 40,
            img.dib_header.width == width,
            img.dib_header.height == height,
            img.dib_header.bits_per_pixel == 24,
            img.dib_header.compress_type == 0,
            img.color_palette is None,
            img.padding == width % 4,
    {
        let count = width as u64 * height as u64;
        let mut data: Vec<Pixel> = Vec::new();
        let mut i: u64 = 0;
        while i < count
            invariant
                i <= count,
                count == width * height,
                data@.len() == i,
                forall|j: int|
                    0 <= j < data@.len() ==> data@[j] == (Pixel { r: 0u8, g: 0u8, b: 0u8 }),
            decreases count - i,
        {
            data.push(Pixel { r: 0, g: 0, b: 0 });
            i = i + 1;
        }

        let row_size: u64 = ((width as u64 * 3 + 3) / 4) * 4;
        let data_size: u64 = height as u64 * row_size;
        let header_size: u32 = 2 + 12 + 40;
        Image {
            header: BmpHeader::new(header_size, data_size as u32),
            dib_header: BmpDibHeader::new(width as i32, height as i32),
            color_palette: None,
            width,
            height,
            padding: width % 4,
            data,
        }
    }

    /// Returns the width of the image.
    #[inline]
    pub fn get_width(&self) -> (w: u32)
        ensures
            w == self.width,
    {
        self.width
    }

    /// Returns the height of the image.
    #[inline]
    pub fn get_height(&self) -> (h: u32)
        ensures
            h == self.height,
    {
        self.height
    }

    /// Overwrites the pixel at column `x` of top-down row `y`.
    #[inline]
    pub fn set_pixel(&mut self, x: u32, y: u32, val: Pixel)
        requires
            old(self).grid_wf(),
            x < old(self).width,
            y < old(self).height,
        ensures
            final(self).grid_wf(),
            final(self).spec_pixel(x as int, y as int) == val,
            final(self).data@.len() == old(self).data@.len(),
            forall|i: int|
                0 <= i < old(self).data@.len() && i != (old(self).height - y - 1)
                    * old(self).width + x ==> final(self).data@[i] == old(self).data@[i],
            final(self).width == old(self).width,
            final(self).height == old(self).height,
            final(self).header == old(self).header,
            final(self).dib_header == old(self).dib_header,
            final(self).color_palette == old(self).color_palette,
            final(self).padding == old(self).padding,
    {
        proof {
            index_in_grid(self.height as int, self.width as int, x as int, y as int);
        }
        let idx: u64 = (self.height - y - 1) as u64 * self.width as u64 + x as u64;
        self.data.set(idx as usize, val);
    }

    /// Returns the pixel at column `x` of top-down row `y`.
    #[inline]
    pub fn get_pixel(&self, x: u32, y: u32) -> (p: Pixel)
        requires
            self.grid_wf(),
            x < self.width,
            y < self.height,
        ensures
            p == self.spec_pixel(x as int, y as int),
    {
        proof {
            index_in_grid(self.height as int, self.width as int, x as int, y as int);
        }
        let idx: u64 = (self.height - y - 1) as u64 * self.width as u64 + x as u64;
        self.data[idx as usize]
    }

    /// Returns a cursor over the image coordinates in top-down, row-major
    /// order.
    #[inline]
    pub fn coordinates(&self) -> (it: ImageIndex)
        ensures
            it == (ImageIndex { width: self.width, height: self.height, x: 0u32, y: 0u32 }),
    {
        ImageIndex::new(self.width, self.height)
    }
}

proof fn index_in_grid(h: int, w: int, x: int, y: int)
    by (nonlinear_arith)
    requires
        0 <= x < w,
        0 <= y < h,
    ensures
        0 <= (h - y - 1) * w + x < h * w,
{
}

/// A cursor over the coordinates of an image, yielding `(x, y)` pairs in
/// row-major order starting from the upper left corner.
#[derive(Clone, Copy, Debug, Eq, PartialEq, Structural)]
pub struct ImageIndex {
    pub width: u32,
    pub height: u32,
    pub x: u32,
    pub y: u32,
}

impl ImageIndex {
    /// Creates a cursor positioned at the upper left corner.
    pub fn new(width: u32, height: u32) -> (it: ImageIndex)
        ensures
            it == (ImageIndex { width, height, x: 0u32, y: 0u32 }),
    {
        ImageIndex { width, height, x: 0, y: 0 }
    }

    /// The cursor still points at a coordinate pair inside the image.
    pub open spec fn in_range(self) -> bool {
        self.x < self.width && self.y < self.height
    }

    /// The cursor one step further on, moving to the next row once a row
    /// is exhausted.
    pub open spec fn spec_advanced(self) -> ImageIndex {
        if self.x + 1 == self.width {
            ImageIndex { x: 0u32, y: (self.y + 1) as u32, ..self }
        } else {
            ImageIndex { x: (self.x + 1) as u32, ..self }
        }
    }

    /// Yields the current coordinates and steps to the next pair, or
    /// returns `None` once every row has been passed.
    pub fn next(&mut self) -> (r: Option<(u32, u32)>)
        ensures
            old(self).in_range() ==> r == Some((old(self).x, old(self).y)),
            old(self).in_range() ==> *final(self) == old(self).spec_advanced(),
            !old(self).in_range() ==> (r is None),
            !old(self).in_range() ==> *final(self) == *old(self),
    {
        if self.x < self.width && self.y < self.height {
            let this = Some((self.x, self.y));
            self.x += 1;
            if self.x == self.width {
                self.x = 0;
                self.y += 1;
            }
            this
        } else {
            None
        }
    }
}

} // verus!
