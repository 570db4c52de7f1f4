//! RGBA images held in memory, and the changes made to an image when it is
//! loaded: flipping it and making one colour transparent.

use vstd::prelude::*;

verus! {

/// An image of 8-bit RGBA pixels, stored row by row from top to bottom.
#[derive(Debug)]
pub struct RgbaImage {
    /// The width of the image, in pixels.
    pub width: u32,
    /// The height of the image, in pixels.
    pub height: u32,
    /// Four bytes for each pixel: red, green, blue and alpha.
    pub data: Vec<u8>,
}

/// What an image holds, with its buffer as a sequence.
pub struct RgbaImageView {
    pub width: u32,
    pub height: u32,
    pub data: Seq<u8>,
}

impl View for RgbaImage {
    type V = RgbaImageView;

    open spec fn view(&self) -> RgbaImageView {
        RgbaImageView { width: self.width, height: self.height, data: self.data@ }
    }
}

impl RgbaImageView {
    /// The buffer holds four bytes for each pixel of the image.
    pub open spec fn well_formed(&self) -> bool {
        self.data.len() == 4 * (self.width * self.height)
    }
}

/// The four bytes of the pixel in column `x` of row `y` of an image that is
/// `width` pixels wide.
pub open spec fn pixel_at(data: Seq<u8>, width: int, x: int, y: int) -> (u8, u8, u8, u8) {
    let i = 4 * (y * width + x);
    (data[i], data[i + 1], data[i + 2], data[i + 3])
}

/// A pixel after colour keying: fully transparent black where its colour is
/// the key, unchanged otherwise.
pub open spec fn keyed(pixel: (u8, u8, u8, u8), color_key: Option<(u8, u8, u8)>) -> (
    u8,
    u8,
    u8,
    u8,
) {
    match color_key {
        Some(key) => if pixel.0 == key.0 && pixel.1 == key.1 && pixel.2 == key.2 {
            (0u8, 0u8, 0u8, 0u8)
        } else {
            pixel
        },
        None => pixel,
    }
}

/// A coordinate after flipping an axis of `size` pixels, or the coordinate
/// itself where the axis is not flipped.
pub open spec fn flipped(flip: bool, size: int, v: int) -> int {
    if flip {
        size - 1 - v
    } else {
        v
    }
}

/// Rows of `width` pixels: a pixel in an earlier row, or earlier in the same
/// row, stands before one that comes later.
proof fn lemma_pixel_order(width: int, x1: int, y1: int, x2: int, y2: int)
    requires
        0 <= x1 < width,
        0 <= x2 < width,
        0 <= y1,
        y1 < y2 || (y1 == y2 && x1 < x2),
    ensures
        y1 * width + x1 < y2 * width + x2,
{
    if y1 < y2 {
        assert((y1 + 1) * width <= y2 * width) by (nonlinear_arith)
            requires
                y1 + 1 <= y2,
                width > 0,
        ;
        assert((y1 + 1) * width == y1 * width + width) by (nonlinear_arith);
    }
}

/// A pixel inside an image lies inside its buffer.
pub proof fn lemma_pixel_in_bounds(width: int, height: int, x: int, y: int)
    requires
        0 <= x < width,
        0 <= y < height,
    ensures
        0 <= y * width + x < width * height,
{
    assert(y * width + width <= height * width) by (nonlinear_arith)
        requires
            y + 1 <= height,
            width > 0,
    ;
    assert(y * width >= 0) by (nonlinear_arith)
        requires
            y >= 0,
            width > 0,
    ;
    assert(height * width == width * height) by (nonlinear_arith);
}

impl RgbaImage {
    /// The buffer holds four bytes for each pixel of the image.
    pub open spec fn well_formed(&self) -> bool {
        self@.well_formed()
    }

    /// An image of the given size over the given buffer, if the buffer holds
    /// exactly four bytes for each pixel.
    pub fn from_raw(width: u32, height: u32, data: Vec<u8>) -> (r: Option<RgbaImage>)
        ensures
            r.is_some() <==> data@.len() == 4 * (width * height),
            r.is_some() ==> r.unwrap().width == width && r.unwrap().height == height
                && r.unwrap().data@ == data@,
    {
        assert((width as u128) * (height as u128) <= 0xffff_ffff * 0xffff_ffff)
            by (nonlinear_arith)
            requires
                width <= 0xffff_ffff,
                height <= 0xffff_ffff,
        ;
        let pixels: u128 = (width as u128) * (height as u128);
        if (data.len() as u128) == 4 * pixels {
            Some(RgbaImage { width, height, data })
        } else {
            None
        }
    }

    /// The width of the image, in pixels.
    pub fn width(&self) -> (width: u32)
        ensures
            width == self.width,
    {
        self.width
    }

    /// The height of the image, in pixels.
    pub fn height(&self) -> (height: u32)
        ensures
            height == self.height,
    {
        self.height
    }
}

/// Whether an image has to be changed when it is loaded: it has a colour key
/// or is flipped. An image that needs no change is used as it is stored.
pub fn needs_processing(color_key: Option<(u8, u8, u8)>, flip_x: bool, flip_y: bool) -> (r: bool)
    ensures
        r == (color_key.is_some() || flip_x || flip_y),
{
    color_key.is_some() || flip_x || flip_y
}

/// Makes a copy of an image with the given changes.
///
/// With `color_key`, pixels of that colour become fully transparent. With
/// `flip_x` the image is flipped horizontally, with `flip_y` vertically: the
/// pixel in column `x` of row `y` of the result comes from the column and row
/// that are as far from the opposite edge.
pub fn process_image(
    src: &RgbaImage,
    color_key: Option<(u8, u8, u8)>,
    flip_x: bool,
    flip_y: bool,
) -> (dest: RgbaImage)
    requires
        src.well_formed(),
    ensures
        dest.well_formed(),
        dest.width == src.width,
        dest.height == src.height,
        forall|x: int, y: int|
            0 <= x < src.width && 0 <= y < src.height ==> #[trigger] pixel_at(
                dest.data@,
                src.width as int,
                x,
                y,
            ) == keyed(
                pixel_at(
                    src.data@,
                    src.width as int,
                    flipped(flip_x, src.width as int, x),
                    flipped(flip_y, src.height as int, y),
                ),
                color_key,
            ),
{
    let width = src.width as usize;
    let height = src.height as usize;
    let total = src.data.len();
    let mut data: Vec<u8> = Vec::new();
    let mut y: usize = 0;
    while y < height
        invariant
            src.well_formed(),
            total == src.data@.len(),
            width == src.width,
            height == src.height,
            y <= height,
            data@.len() == 4 * (y * width),
            forall|x2: int, y2: int|
                0 <= x2 < width && 0 <= y2 < y ==> #[trigger] pixel_at(
                    data@,
                    width as int,
                    x2,
                    y2,
                ) == keyed(
                    pixel_at(
                        src.data@,
                        width as int,
                        flipped(flip_x, width as int, x2),
                        flipped(flip_y, height as int, y2),
                    ),
                    color_key,
                ),
        decreases height - y,
    {
        let source_y: usize = if flip_y {
            height - 1 - y
        } else {
            y
        };
        let mut x: usize = 0;
        while x < width
            invariant
                src.well_formed(),
                total == src.data@.len(),
                width == src.width,
                height == src.height,
                y < height,
                x <= width,
                source_y == flipped(flip_y, height as int, y as int),
                data@.len() == 4 * (y * width + x),
                forall|x2: int, y2: int|
                    0 <= x2 < width && (0 <= y2 < y || (y2 == y && x2 < x))
                        ==> #[trigger] pixel_at(data@, width as int, x2, y2) == keyed(
                        pixel_at(
                            src.data@,
                            width as int,
                            flipped(flip_x, width as int, x2),
                            flipped(flip_y, height as int, y2),
                        ),
                        color_key,
                    ),
            decreases width - x,
        {
            let source_x: usize = if flip_x {
                width - 1 - x
            } else {
                x
            };
            proof {
                lemma_pixel_in_bounds(width as int, height as int, source_x as int, source_y as int);
                assert(source_y * width >= 0) by (nonlinear_arith)
                    requires
                        source_y >= 0,
                        width >= 0,
                ;
            }
            let at: usize = 4 * (source_y * width + source_x);
            let mut red = src.data[at];
            let mut green = src.data[at + 1];
            let mut blue = src.data[at + 2];
            let mut alpha = src.data[at + 3];
            match color_key {
                Some(key) => {
                    if red == key.0 && green == key.1 && blue == key.2 {
                        red = 0;
                        green = 0;
                        blue = 0;
                        alpha = 0;
                    }
                },
                None => {},
            }
            let ghost before = data@;
            data.push(red);
            data.push(green);
            data.push(blue);
            data.push(alpha);
            proof {
                assert forall|x2: int, y2: int|
                    0 <= x2 < width && (0 <= y2 < y || (y2 == y && x2 < x + 1)) implies #[trigger] pixel_at(
                    data@,
                    width as int,
                    x2,
                    y2,
                ) == keyed(
                    pixel_at(
                        src.data@,
                        width as int,
                        flipped(flip_x, width as int, x2),
                        flipped(flip_y, height as int, y2),
                    ),
                    color_key,
                ) by {
                    if y2 == y && x2 == x {
                    } else {
                        lemma_pixel_order(width as int, x2, y2, x as int, y as int);
                        assert(pixel_at(data@, width as int, x2, y2) == pixel_at(
                            before,
                            width as int,
                            x2,
                            y2,
                        ));
                    }
                }
            }
            x += 1;
        }
        assert((y + 1) * width == y * width + width) by (nonlinear_arith);
        y += 1;
    }
    assert(height * width == width * height) by (nonlinear_arith);
    RgbaImage { width: src.width, height: src.height, data }
}

} // verus!
