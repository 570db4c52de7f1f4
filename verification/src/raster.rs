//! The pixels of a bitmap payload: what each pixel of the image is, given the
//! bytes of the payload, and the check that a decoded image holds them.
//!
//! After the header and the colour table stand the colour rows, from the
//! bottom row of the image up, then the rows of the mask in the same order,
//! one bit for each pixel. A pixel of 1, 4 or 8 bits names an entry of the
//! colour table; one of 24 or 32 bits holds its colour as blue, green and red,
//! and with 32 bits its alpha. Where the payload has no alpha of its own, a
//! pixel is opaque unless its bit in the mask is set.

use crate::asset_image::pixel_at;
use crate::bitmap::{
    bmp_header, check_palette_fault, get_palette_index, has_palette_fault, is_faulty_lookup,
    is_supported_depth, lemma_faulty_lookup, palette_capacity, palette_index, read_bmp_header,
    BmpHeader, MAX_PIXELS,
};
use vstd::prelude::*;

verus! {

impl BmpHeader {
    /// The number of bytes that hold the mask bits of one row.
    pub open spec fn spec_mask_row_len(&self) -> int {
        (self.width + 7) / 8
    }

    /// The number of bytes from one row of the mask to the next.
    pub open spec fn spec_mask_stride(&self) -> int {
        (self.spec_mask_row_len() + 3) / 4 * 4
    }

    /// Where the rows of the mask start: after the colour rows.
    pub open spec fn spec_mask_start(&self) -> int {
        self.spec_raster_start() + self.height * self.spec_row_stride()
    }

    /// The number of bytes of a whole payload: the header, the colour table,
    /// the colour rows and, for depths below 32 bits, the rows of the mask.
    pub open spec fn spec_payload_len(&self) -> int {
        if self.bits_per_pixel == 32 {
            self.spec_mask_start()
        } else {
            self.spec_mask_start() + self.height * self.spec_mask_stride()
        }
    }
}

/// Whether a payload holds every row that its header announces, and the
/// image is not larger than a bitmap may be.
pub open spec fn is_complete(data: Seq<u8>, header: BmpHeader) -> bool {
    header.width * header.height <= MAX_PIXELS && data.len() >= header.spec_payload_len()
}

/// The alpha that the mask gives the pixel in column `x` of the row `row` of
/// the payload: transparent where its bit is set, opaque where it is not.
pub open spec fn mask_alpha(data: Seq<u8>, header: BmpHeader, x: int, row: int) -> u8 {
    let at = header.spec_mask_start() + row * header.spec_mask_stride() + x / 8;
    if (data[at] >> ((7 - x % 8) as u8)) & 1 == 1 {
        0
    } else {
        255
    }
}

/// The red, green, blue and alpha of the pixel in column `x` of row `y` of
/// the image, counted from the top, that a payload with the given header
/// holds.
pub open spec fn bmp_pixel(data: Seq<u8>, header: BmpHeader, x: int, y: int) -> (u8, u8, u8, u8) {
    let row = header.height - 1 - y;
    let line = header.spec_raster_start() + row * header.spec_row_stride();
    if header.bits_per_pixel == 32 {
        let at = line + 4 * x;
        (data[at + 2], data[at + 1], data[at], data[at + 3])
    } else if header.bits_per_pixel == 24 {
        let at = line + 3 * x;
        (data[at + 2], data[at + 1], data[at], mask_alpha(data, header, x, row))
    } else {
        let per_byte = header.spec_pixels_per_byte();
        let index = palette_index(
            data[line + x / per_byte],
            header.bits_per_pixel,
            (x % per_byte) as u8,
        );
        let at = 40 + 4 * index;
        (data[at + 2], data[at + 1], data[at], mask_alpha(data, header, x, row))
    }
}

/// Whether a pixel buffer holds the image of a payload: four bytes for each
/// pixel, rows from top to bottom, and each pixel the one that the payload
/// holds.
pub open spec fn is_bmp_image(data: Seq<u8>, header: BmpHeader, rgba: Seq<u8>) -> bool {
    &&& rgba.len() == 4 * (header.width * header.height)
    &&& forall|x: int, y: int|
        0 <= x < header.width && 0 <= y < header.height ==> #[trigger] pixel_at(
            rgba,
            header.width as int,
            x,
            y,
        ) == bmp_pixel(data, header, x, y)
}

/// Where the parts of a payload stand, as numbers that can be computed with.
struct Layout {
    stride: u64,
    raster_start: u64,
    mask_start: u64,
    mask_stride: u64,
    payload_len: u64,
}

impl Layout {
    /// Whether the numbers are those of the header.
    spec fn fits(&self, header: BmpHeader) -> bool {
        &&& self.stride == header.spec_row_stride()
        &&& self.raster_start == header.spec_raster_start()
        &&& self.mask_start == header.spec_mask_start()
        &&& self.mask_stride == header.spec_mask_stride()
        &&& self.payload_len == header.spec_payload_len()
    }
}

/// A row of the payload lies before the rows that follow it: a position in
/// row `row` of rows that are `stride` apart lies before the end of `count`
/// rows.
proof fn lemma_row_in_bounds(row: int, count: int, stride: int, offset: int)
    requires
        0 <= row < count,
        0 <= offset < stride,
    ensures
        0 <= row * stride,
        row * stride + offset < count * stride,
{
    assert(row * stride >= 0) by (nonlinear_arith)
        requires
            row >= 0,
            stride >= 0,
    ;
    assert(row * stride + stride <= count * stride) by (nonlinear_arith)
        requires
            row + 1 <= count,
            stride >= 0,
    ;
}

/// Computes where the parts of a payload stand, if the image is not larger
/// than a bitmap may be.
fn layout_of(header: &BmpHeader) -> (r: Option<Layout>)
    requires
        1 <= header.width <= 0x7fff_ffff,
        1 <= header.height <= 0x7fff_ffff,
        is_supported_depth(header.bits_per_pixel),
    ensures
        r.is_some() == (header.width * header.height <= MAX_PIXELS),
        r.is_some() ==> r.unwrap().fits(*header) && r.unwrap().payload_len <= 0x8000_0000,
{
    assert((header.width as u64) * (header.height as u64) <= 0x7fff_ffff * 0x7fff_ffff)
        by (nonlinear_arith)
        requires
            header.width <= 0x7fff_ffff,
            header.height <= 0x7fff_ffff,
    ;
    let pixels: u64 = (header.width as u64) * (header.height as u64);
    if pixels > MAX_PIXELS {
        return None;
    }
    let width = header.width as u64;
    let height = header.height as u64;
    assert(width <= pixels && height <= pixels) by (nonlinear_arith)
        requires
            pixels == width * height,
            width >= 1,
            height >= 1,
    ;
    let depth = header.bits_per_pixel as u64;
    assert(width * depth <= width * 32) by (nonlinear_arith)
        requires
            depth <= 32,
            width >= 0,
    ;
    let row_data_len: u64 = (width * depth + 7) / 8;
    let stride: u64 = (row_data_len + 3) / 4 * 4;
    let mask_stride: u64 = ((width + 7) / 8 + 3) / 4 * 4;
    let palette_len = header.palette_len() as u64;
    let raster_start: u64 = 40 + 4 * palette_len;
    assert(height * stride <= height * (4 * width + 4)) by (nonlinear_arith)
        requires
            stride <= 4 * width + 4,
            height >= 0,
    ;
    assert(height * (4 * width + 4) == 4 * (width * height) + 4 * height) by (nonlinear_arith);
    assert(height * mask_stride <= height * (width + 4)) by (nonlinear_arith)
        requires
            mask_stride <= width + 4,
            height >= 0,
    ;
    assert(height * (width + 4) == width * height + 4 * height) by (nonlinear_arith);
    let mask_start: u64 = raster_start + height * stride;
    let payload_len: u64 = if header.bits_per_pixel == 32 {
        mask_start
    } else {
        mask_start + height * mask_stride
    };
    Some(Layout { stride, raster_start, mask_start, mask_stride, payload_len })
}

/// The number of bytes that hold the pixels of a row, for each depth.
proof fn lemma_row_data_len(header: BmpHeader)
    requires
        is_supported_depth(header.bits_per_pixel),
    ensures
        header.bits_per_pixel == 32 ==> header.spec_row_data_len() == 4 * header.width,
        header.bits_per_pixel == 24 ==> header.spec_row_data_len() == 3 * header.width,
        header.bits_per_pixel == 8 ==> header.spec_row_data_len() == header.width,
        header.bits_per_pixel == 4 ==> header.spec_row_data_len() == (header.width + 1) / 2,
        header.bits_per_pixel == 1 ==> header.spec_row_data_len() == (header.width + 7) / 8,
        header.spec_row_data_len() <= header.spec_row_stride(),
{
    let width = header.width as int;
    let depth = header.bits_per_pixel as int;
    assert(depth == 32 ==> width * depth == 32 * width) by (nonlinear_arith);
    assert(depth == 24 ==> width * depth == 24 * width) by (nonlinear_arith);
    assert(depth == 8 ==> width * depth == 8 * width) by (nonlinear_arith);
    assert(depth == 4 ==> width * depth == 4 * width) by (nonlinear_arith);
    assert(depth == 1 ==> width * depth == width) by (nonlinear_arith);
}

/// The colour index of a pixel is below the number of colours that its depth
/// can index.
proof fn lemma_palette_index_bound(byte: u8, bits_per_pixel: u16, k: u8)
    ensures
        palette_index(byte, bits_per_pixel, k) < palette_capacity(bits_per_pixel)
            || palette_capacity(bits_per_pixel) == 0,
{
    let one = (byte >> ((7 - k) as u8)) & 1;
    let four = (byte >> ((4 * (1 - k)) as u8)) & 0xf;
    let s1 = (7 - k) as u8;
    let s4 = (4 * (1 - k)) as u8;
    assert((byte >> s1) & 1 <= 1) by (bit_vector);
    assert((byte >> s4) & 0xf <= 15) by (bit_vector);
}

/// Computes the pixel in column `x` of row `y` of the image that a payload
/// holds.
fn expected_pixel(data: &[u8], header: &BmpHeader, layout: &Layout, x: u32, y: u32) -> (r: (
    u8,
    u8,
    u8,
    u8,
))
    requires
        bmp_header(data@) == Some(*header),
        is_supported_depth(header.bits_per_pixel),
        !has_palette_fault(data@),
        is_complete(data@, *header),
        layout.fits(*header),
        x < header.width,
        y < header.height,
    ensures
        r == bmp_pixel(data@, *header, x as int, y as int),
{
    let row: u64 = (header.height - 1 - y) as u64;
    let column: u64 = x as u64;
    let palette_len = header.palette_len();
    let len = data.len();
    proof {
        lemma_row_data_len(*header);
        lemma_row_in_bounds(row as int, header.height as int, layout.stride as int, 0);
        lemma_row_in_bounds(
            row as int,
            header.height as int,
            layout.stride as int,
            layout.stride - 1,
        );
        if header.bits_per_pixel != 32 {
            lemma_row_in_bounds(
                row as int,
                header.height as int,
                layout.mask_stride as int,
                x as int / 8,
            );
        }
    }
    let line: u64 = layout.raster_start + row * layout.stride;
    if header.bits_per_pixel == 32 {
        let at = (line + 4 * column) as usize;
        (data[at + 2], data[at + 1], data[at], data[at + 3])
    } else {
        let mask_at = (layout.mask_start + row * layout.mask_stride + column / 8) as usize;
        let alpha: u8 = if (data[mask_at] >> ((7 - column % 8) as u8)) & 1 == 1 {
            0
        } else {
            255
        };
        if header.bits_per_pixel == 24 {
            let at = (line + 3 * column) as usize;
            (data[at + 2], data[at + 1], data[at], alpha)
        } else {
            let per_byte: u64 = if header.bits_per_pixel == 1 {
                8
            } else if header.bits_per_pixel == 4 {
                2
            } else {
                1
            };
            let j = column / per_byte;
            let k = (column % per_byte) as u8;
            let byte = data[(line + j) as usize];
            let index = get_palette_index(byte, header.bits_per_pixel, k);
            proof {
                lemma_palette_index_bound(byte, header.bits_per_pixel, k);
                if palette_len < palette_capacity(header.bits_per_pixel) {
                    if is_faulty_lookup(data@, *header, row as int, j as int, k as int) {
                        lemma_faulty_lookup(data@, *header, row as int, j as int, k as int);
                    }
                }
            }
            let at = 40 + 4 * (index as usize);
            (data[at + 2], data[at + 1], data[at], alpha)
        }
    }
}

/// Tells whether a payload holds every row that its header announces, and a
/// pixel buffer holds the image of the payload.
pub(crate) fn pixels_match(data: &[u8], header: &BmpHeader, rgba: &[u8]) -> (r: bool)
    requires
        bmp_header(data@) == Some(*header),
        is_supported_depth(header.bits_per_pixel),
        !has_palette_fault(data@),
    ensures
        r == (is_complete(data@, *header) && is_bmp_image(data@, *header, rgba@)),
{
    let layout = match layout_of(header) {
        Some(layout) => layout,
        None => {
            return false;
        },
    };
    if (data.len() as u64) < layout.payload_len {
        return false;
    }
    let width = header.width as usize;
    let height = header.height as usize;
    assert(width * height <= MAX_PIXELS);
    if rgba.len() != 4 * (width * height) {
        return false;
    }
    let mut y: usize = 0;
    while y < height
        invariant
            bmp_header(data@) == Some(*header),
            is_supported_depth(header.bits_per_pixel),
            !has_palette_fault(data@),
            is_complete(data@, *header),
            layout.fits(*header),
            width == header.width,
            height == header.height,
            rgba@.len() == 4 * (width * height),
            y <= height,
            forall|x2: int, y2: int|
                0 <= x2 < width && 0 <= y2 < y ==> #[trigger] pixel_at(rgba@, width as int, x2, y2)
                    == bmp_pixel(data@, *header, x2, y2),
        decreases height - y,
    {
        let mut x: usize = 0;
        while x < width
            invariant
                bmp_header(data@) == Some(*header),
                is_supported_depth(header.bits_per_pixel),
                !has_palette_fault(data@),
                is_complete(data@, *header),
                layout.fits(*header),
                width == header.width,
                height == header.height,
                rgba@.len() == 4 * (width * height),
                y < height,
                x <= width,
                forall|x2: int, y2: int|
                    0 <= x2 < width && (0 <= y2 < y || (y2 == y && x2 < x)) ==> #[trigger] pixel_at(
                        rgba@,
                        width as int,
                        x2,
                        y2,
                    ) == bmp_pixel(data@, *header, x2, y2),
            decreases width - x,
        {
            let expected = expected_pixel(data, header, &layout, x as u32, y as u32);
            proof {
                crate::asset_image::lemma_pixel_in_bounds(
                    width as int,
                    height as int,
                    x as int,
                    y as int,
                );
            }
            let at: usize = 4 * (y * width + x);
            if rgba[at] != expected.0 || rgba[at + 1] != expected.1 || rgba[at + 2] != expected.2
                || rgba[at + 3] != expected.3 {
                assert(pixel_at(rgba@, width as int, x as int, y as int) != bmp_pixel(
                    data@,
                    *header,
                    x as int,
                    y as int,
                ));
                return false;
            }
            x += 1;
        }
        y += 1;
    }
    true
}

/// Whether a pixel buffer holds the image of a bitmap payload: the payload
/// has a header and a supported depth, names no colour outside its colour
/// table, holds every row that the header announces, and the buffer holds
/// each of its pixels.
pub open spec fn holds_bmp_image(data: Seq<u8>, rgba: Seq<u8>) -> bool {
    match bmp_header(data) {
        None => false,
        Some(header) => {
            &&& is_supported_depth(header.bits_per_pixel)
            &&& !has_palette_fault(data)
            &&& is_complete(data, header)
            &&& is_bmp_image(data, header, rgba)
        },
    }
}

/// Tells whether a pixel buffer holds the image of a bitmap payload.
pub fn check_pixels(data: &[u8], rgba: &[u8]) -> (r: bool)
    ensures
        r == holds_bmp_image(data@, rgba@),
{
    match read_bmp_header(data) {
        None => false,
        Some(header) => header.has_supported_depth() && !check_palette_fault(data) && pixels_match(
            data,
            &header,
            rgba,
        ),
    }
}

} // verus!
