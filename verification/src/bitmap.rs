//! The header of a device-independent bitmap as it stands in an icon or
//! cursor file, and the checks that are made on a bitmap payload before it is
//! decoded.
//!
//! Such a payload starts with a 40-byte header. A colour table follows for
//! depths of 8 bits and less, then the colour rows from the bottom row up, each
//! padded to a multiple of four bytes, then the rows of a 1-bit mask.

use crate::bytes::{get_u16_le, get_u32_le, le_u16, le_u32};
use vstd::prelude::*;

verus! {

/// The number of bytes in the header of a bitmap.
pub const BMP_HEADER_LEN: usize = 40;

/// The largest number of pixels that a bitmap may hold.
pub const MAX_PIXELS: u64 = 67108864;

/// The fields of a bitmap header that the layout of the payload depends on.
#[derive(Clone, Copy, Debug, PartialEq, Eq, Structural)]
pub struct BmpHeader {
    /// The width of the image, in pixels; at least 1.
    pub width: u32,
    /// The height of the image, in pixels; at least 1. The header stores
    /// twice this number, for the colour rows and the mask rows together.
    pub height: u32,
    /// The number of bits that encode one pixel.
    pub bits_per_pixel: u16,
    /// The number of colour table entries that the header declares; zero
    /// stands for as many as the depth allows.
    pub colors_used: u32,
}

/// The header of a bitmap payload: present when the payload holds all 40
/// bytes, declares that length, a width of at least 1 and a doubled height that
/// is even and at least 2, both within the range of a signed 32-bit number.
pub open spec fn bmp_header(data: Seq<u8>) -> Option<BmpHeader> {
    if data.len() >= 40 && le_u32(data, 0) == 40 && 1 <= le_u32(data, 4) <= i32::MAX && 2
        <= le_u32(data, 8) <= i32::MAX && le_u32(data, 8) % 2 == 0 {
        Some(
            BmpHeader {
                width: le_u32(data, 4),
                height: (le_u32(data, 8) / 2) as u32,
                bits_per_pixel: le_u16(data, 14),
                colors_used: le_u32(data, 32),
            },
        )
    } else {
        None
    }
}

/// Reads the header of a bitmap payload.
pub fn read_bmp_header(data: &[u8]) -> (r: Option<BmpHeader>)
    ensures
        r == bmp_header(data@),
{
    if data.len() < BMP_HEADER_LEN {
        return None;
    }
    let size = get_u32_le(data, 0).unwrap();
    let width = get_u32_le(data, 4).unwrap();
    let doubled = get_u32_le(data, 8).unwrap();
    let bits_per_pixel = get_u16_le(data, 14).unwrap();
    let colors_used = get_u32_le(data, 32).unwrap();
    if size != 40 || width < 1 || width > 0x7fff_ffff || doubled < 2 || doubled > 0x7fff_ffff
        || doubled % 2 != 0 {
        return None;
    }
    Some(BmpHeader { width, height: doubled / 2, bits_per_pixel, colors_used })
}

/// Whether a depth is one of those that a cursor bitmap may have.
pub open spec fn is_supported_depth(bits_per_pixel: u16) -> bool {
    bits_per_pixel == 1 || bits_per_pixel == 4 || bits_per_pixel == 8 || bits_per_pixel == 24
        || bits_per_pixel == 32
}

/// The number of colours that a depth with a colour table can index; zero for
/// a depth without one.
pub open spec fn palette_capacity(bits_per_pixel: u16) -> u32 {
    if bits_per_pixel == 1 {
        2
    } else if bits_per_pixel == 4 {
        16
    } else if bits_per_pixel == 8 {
        256
    } else {
        0
    }
}

impl BmpHeader {
    /// The number of entries in the colour table: what the header declares,
    /// or as many as the depth allows where it declares none or too many.
    pub open spec fn spec_palette_len(&self) -> u32 {
        let capacity = palette_capacity(self.bits_per_pixel);
        if self.colors_used == 0 || self.colors_used > capacity {
            capacity
        } else {
            self.colors_used
        }
    }

    /// The number of pixels that one byte of a colour row encodes, for a
    /// depth with a colour table.
    pub open spec fn spec_pixels_per_byte(&self) -> int {
        if self.bits_per_pixel == 1 {
            8
        } else if self.bits_per_pixel == 4 {
            2
        } else {
            1
        }
    }

    /// The number of bytes that encode the pixels of one colour row.
    pub open spec fn spec_row_data_len(&self) -> int {
        (self.width * self.bits_per_pixel + 7) / 8
    }

    /// The number of bytes from one colour row to the next: the row's data
    /// padded to a multiple of four.
    pub open spec fn spec_row_stride(&self) -> int {
        (self.spec_row_data_len() + 3) / 4 * 4
    }

    /// Where the colour rows start: after the header and the colour table.
    pub open spec fn spec_raster_start(&self) -> int {
        40 + 4 * self.spec_palette_len()
    }

    /// Whether the depth is one of those that a cursor bitmap may have.
    pub fn has_supported_depth(&self) -> (r: bool)
        ensures
            r == is_supported_depth(self.bits_per_pixel),
    {
        self.bits_per_pixel == 1 || self.bits_per_pixel == 4 || self.bits_per_pixel == 8
            || self.bits_per_pixel == 24 || self.bits_per_pixel == 32
    }

    /// The number of colours that the depth can index.
    pub fn palette_capacity(&self) -> (r: u32)
        ensures
            r == palette_capacity(self.bits_per_pixel),
    {
        if self.bits_per_pixel == 1 {
            2
        } else if self.bits_per_pixel == 4 {
            16
        } else if self.bits_per_pixel == 8 {
            256
        } else {
            0
        }
    }

    /// The number of entries in the colour table.
    pub fn palette_len(&self) -> (r: u32)
        ensures
            r == self.spec_palette_len(),
    {
        let capacity = self.palette_capacity();
        if self.colors_used == 0 || self.colors_used > capacity {
            capacity
        } else {
            self.colors_used
        }
    }
}

/// The colour index of the `k`-th pixel that a byte of a colour row encodes,
/// counted from the most significant bits.
pub open spec fn palette_index(byte: u8, bits_per_pixel: u16, k: u8) -> u8 {
    if bits_per_pixel == 1 {
        (byte >> ((7 - k) as u8)) & 1
    } else if bits_per_pixel == 4 {
        (byte >> ((4 * (1 - k)) as u8)) & 0xf
    } else {
        byte
    }
}

/// The colour index of the `k`-th pixel in a byte of a colour row.
pub fn get_palette_index(byte: u8, bits_per_pixel: u16, k: u8) -> (r: u8)
    requires
        bits_per_pixel == 1 ==> k < 8,
        bits_per_pixel == 4 ==> k < 2,
    ensures
        r == palette_index(byte, bits_per_pixel, k),
{
    if bits_per_pixel == 1 {
        (byte >> (7 - k)) & 1
    } else if bits_per_pixel == 4 {
        (byte >> (4 * (1 - k))) & 0xf
    } else {
        byte
    }
}

/// Whether the pixel `k` of byte `j` of colour row `row` (counted from the
/// start of the raster, so from the bottom of the image) is held by the
/// payload, belongs to the image, and names a colour that the colour table
/// does not hold.
pub open spec fn is_faulty_lookup(data: Seq<u8>, header: BmpHeader, row: int, j: int, k: int) -> bool {
    let pos = header.spec_raster_start() + row * header.spec_row_stride() + j;
    &&& 0 <= row < header.height
    &&& 0 <= j < header.spec_row_data_len()
    &&& 0 <= k < header.spec_pixels_per_byte()
    &&& j * header.spec_pixels_per_byte() + k < header.width
    &&& pos < data.len()
    &&& palette_index(data[pos], header.bits_per_pixel, k as u8) >= header.spec_palette_len()
}

/// Whether a bitmap payload names a colour outside its colour table: it has
/// a header and a depth with a colour table, declares fewer colours than the
/// depth can index, is not larger than a bitmap may be, and one of the pixels
/// that it holds has an index that is not below the declared number.
pub open spec fn has_palette_fault(data: Seq<u8>) -> bool {
    match bmp_header(data) {
        None => false,
        Some(header) => {
            &&& header.spec_palette_len() < palette_capacity(header.bits_per_pixel)
            &&& header.width * header.height <= MAX_PIXELS
            &&& exists|row: int, j: int, k: int| is_faulty_lookup(data, header, row, j, k)
        },
    }
}

/// One lookup of a colour that the table does not hold makes a payload
/// faulty, where the table is short and the image not too large.
pub proof fn lemma_faulty_lookup(data: Seq<u8>, header: BmpHeader, row: int, j: int, k: int)
    requires
        bmp_header(data) == Some(header),
        header.spec_palette_len() < palette_capacity(header.bits_per_pixel),
        header.width * header.height <= MAX_PIXELS,
        is_faulty_lookup(data, header, row, j, k),
    ensures
        has_palette_fault(data),
{
    let found = bmp_header(data).unwrap();
    assert(is_faulty_lookup(data, found, row, j, k));
    assert(exists|row: int, j: int, k: int| is_faulty_lookup(data, found, row, j, k));
}

/// Tells whether one of the pixels that a byte of a colour row encodes
/// belongs to the image and names a colour that the colour table does not
/// hold.
fn byte_has_fault(
    data: &[u8],
    header: &BmpHeader,
    palette_len: u32,
    pos: usize,
    Ghost(row): Ghost<int>,
    j: u64,
) -> (r: bool)
    requires
        bmp_header(data@) == Some(*header),
        palette_len == header.spec_palette_len(),
        palette_len < palette_capacity(header.bits_per_pixel),
        0 <= row < header.height,
        j < header.spec_row_data_len(),
        pos == header.spec_raster_start() + row * header.spec_row_stride() + j,
        pos < data@.len(),
    ensures
        r == exists|k: int| is_faulty_lookup(data@, *header, row, j as int, k),
{
    let pixels_per_byte: u8 = if header.bits_per_pixel == 1 {
        8
    } else if header.bits_per_pixel == 4 {
        2
    } else {
        1
    };
    let byte = data[pos];
    let first: u64 = if header.bits_per_pixel == 1 {
        j * 8
    } else if header.bits_per_pixel == 4 {
        j * 2
    } else {
        j
    };
    let mut k: u8 = 0;
    while k < pixels_per_byte && first + (k as u64) < header.width as u64
        invariant
            k <= pixels_per_byte,
            pixels_per_byte == header.spec_pixels_per_byte(),
            first == j * header.spec_pixels_per_byte(),
            first <= header.width * 8 + 8,
            pos < data@.len(),
            byte == data@[pos as int],
            palette_len == header.spec_palette_len(),
            0 <= row < header.height,
            j < header.spec_row_data_len(),
            pos == header.spec_raster_start() + row * header.spec_row_stride() + j,
            forall|i: int| 0 <= i < k ==> !is_faulty_lookup(data@, *header, row, j as int, i),
        decreases pixels_per_byte - k,
    {
        if get_palette_index(byte, header.bits_per_pixel, k) as u32 >= palette_len {
            assert(is_faulty_lookup(data@, *header, row, j as int, k as int));
            return true;
        }
        k += 1;
    }
    false
}

/// Tells whether a bitmap payload names a colour outside its colour table.
pub fn check_palette_fault(data: &[u8]) -> (r: bool)
    ensures
        r == has_palette_fault(data@),
{
    let header = match read_bmp_header(data) {
        None => {
            return false;
        },
        Some(header) => header,
    };
    let palette_len = header.palette_len();
    if palette_len >= header.palette_capacity() {
        return false;
    }
    assert((header.width as u64) * (header.height as u64) <= 0x7fff_ffff * 0x7fff_ffff)
        by (nonlinear_arith)
        requires
            header.width <= 0x7fff_ffff,
            header.height <= 0x7fff_ffff,
    ;
    if (header.width as u64) * (header.height as u64) > MAX_PIXELS {
        return false;
    }
    assert((header.width as u64) * (header.bits_per_pixel as u64) <= 0x7fff_ffff * 8)
        by (nonlinear_arith)
        requires
            header.width <= 0x7fff_ffff,
            header.bits_per_pixel <= 8,
    ;
    let row_data_len: u64 = ((header.width as u64) * (header.bits_per_pixel as u64) + 7) / 8;
    let stride: u64 = (row_data_len + 3) / 4 * 4;
    let raster_start: u64 = 40 + 4 * (palette_len as u64);
    let len: u64 = data.len() as u64;
    let mut row: u64 = 0;
    let mut row_start: u64 = raster_start;
    while row < header.height as u64 && row_start < len
        invariant
            bmp_header(data@) == Some(header),
            palette_len == header.spec_palette_len(),
            palette_len < palette_capacity(header.bits_per_pixel),
            header.width * header.height <= MAX_PIXELS,
            row_data_len == header.spec_row_data_len(),
            stride == header.spec_row_stride(),
            raster_start == header.spec_raster_start(),
            len == data@.len(),
            len <= usize::MAX,
            row <= header.height,
            row_start == raster_start + row * stride,
            forall|r: int, j: int, k: int| r < row ==> !is_faulty_lookup(data@, header, r, j, k),
        decreases header.height - row,
    {
        let mut j: u64 = 0;
        while j < row_data_len && j < len - row_start
            invariant
                bmp_header(data@) == Some(header),
                palette_len == header.spec_palette_len(),
                palette_len < palette_capacity(header.bits_per_pixel),
                row_data_len == header.spec_row_data_len(),
                stride == header.spec_row_stride(),
                raster_start == header.spec_raster_start(),
                len == data@.len(),
                len <= usize::MAX,
                header.width * header.height <= MAX_PIXELS,
                row < header.height,
                row_start == raster_start + row * stride,
                row_start < len,
                j <= row_data_len,
                forall|i: int, k: int| i < j ==> !is_faulty_lookup(data@, header, row as int, i, k),
            decreases row_data_len - j,
        {
            if byte_has_fault(
                data,
                &header,
                palette_len,
                (row_start + j) as usize,
                Ghost(row as int),
                j,
            ) {
                return true;
            }
            j += 1;
        }
        assert forall|i: int, k: int| !is_faulty_lookup(data@, header, row as int, i, k) by {}
        if len - row_start <= stride {
            proof {
                assert forall|r: int, i: int, k: int| !is_faulty_lookup(data@, header, r, i, k) by {
                    if row < r {
                        assert(r * stride >= row * stride + stride) by (nonlinear_arith)
                            requires
                                row < r,
                                stride >= 0,
                        ;
                    }
                }
            }
            return false;
        }
        row_start = row_start + stride;
        assert((row + 1) * stride == row * stride + stride) by (nonlinear_arith);
        row += 1;
    }
    proof {
        assert forall|r: int, i: int, k: int| !is_faulty_lookup(data@, header, r, i, k) by {
            if row <= r && r < header.height {
                assert(r * stride >= row * stride) by (nonlinear_arith)
                    requires
                        row <= r,
                        stride >= 0,
                ;
            }
        }
    }
    false
}

} // verus!
