//! Icon and cursor directories: the index at the start of an ICO or CUR file
//! and the encoded images that it lists.

use crate::bitmap::{
    bmp_header, check_palette_fault, has_palette_fault, is_supported_depth, read_bmp_header,
};
use crate::bytes::{io_error_kind, le_u16, le_u32, IoErrorKind};
use crate::directory::{check_directory, directory_conforms, resource_type_of};
use crate::raster::{is_bmp_image, is_complete, pixels_match};
use vstd::prelude::*;

verus! {

/// The type of resource stored in a directory.
#[derive(Clone, Copy, Debug, PartialEq, Eq, Hash, Structural)]
pub enum ResourceType {
    /// Plain images (ICO files).
    Icon,
    /// Images with cursor hotspots (CUR files).
    Cursor,
}

/// One entry of a directory: a single icon or cursor, still encoded.
#[derive(Debug)]
pub struct IconDirEntry {
    /// The width of the image, in pixels.
    pub width: u32,
    /// The height of the image, in pixels.
    pub height: u32,
    /// The colour depth that the directory gives for an icon; zero for a
    /// cursor, whose directory holds the hotspot in its place.
    pub bits_per_pixel: u16,
    /// The hotspot that the directory gives for a cursor; none for an icon.
    pub hotspot: Option<(u16, u16)>,
    /// The encoded image: a PNG file, or a bitmap without its file header.
    pub data: Vec<u8>,
}

/// What an entry holds, with its payload as a sequence.
pub struct IconDirEntryView {
    pub width: u32,
    pub height: u32,
    pub bits_per_pixel: u16,
    pub hotspot: Option<(u16, u16)>,
    pub data: Seq<u8>,
}

impl View for IconDirEntry {
    type V = IconDirEntryView;

    open spec fn view(&self) -> IconDirEntryView {
        IconDirEntryView {
            width: self.width,
            height: self.height,
            bits_per_pixel: self.bits_per_pixel,
            hotspot: self.hotspot,
            data: self.data@,
        }
    }
}

impl IconDirEntryView {
    /// The type of resource that the entry holds: a cursor where it has a
    /// hotspot, an icon where it has none.
    pub open spec fn resource_type(&self) -> ResourceType {
        if self.hotspot.is_some() {
            ResourceType::Cursor
        } else {
            ResourceType::Icon
        }
    }
}

/// A collection of images: the contents of a single ICO or CUR file.
#[derive(Debug)]
pub struct IconDir {
    /// The type of resource stored in the collection.
    pub restype: ResourceType,
    /// The entries, in the order of the directory.
    pub entries: Vec<IconDirEntry>,
}

/// What a directory holds, with its entries as a sequence.
pub struct IconDirView {
    pub restype: ResourceType,
    pub entries: Seq<IconDirEntryView>,
}

impl View for IconDir {
    type V = IconDirView;

    open spec fn view(&self) -> IconDirView {
        IconDirView {
            restype: self.restype,
            entries: self.entries@.map_values(|entry: IconDirEntry| entry@),
        }
    }
}

/// A decoded image: rows of RGBA pixels from top to bottom.
#[derive(Debug)]
pub struct IconImage {
    /// The width of the image, in pixels.
    pub width: u32,
    /// The height of the image, in pixels.
    pub height: u32,
    /// The hotspot, where the image is a cursor.
    pub hotspot: Option<(u16, u16)>,
    /// Four bytes for each pixel: red, green, blue and alpha.
    pub rgba_data: Vec<u8>,
}

/// What a decoded image holds, with its pixels as a sequence.
pub struct IconImageView {
    pub width: u32,
    pub height: u32,
    pub hotspot: Option<(u16, u16)>,
    pub rgba_data: Seq<u8>,
}

impl View for IconImage {
    type V = IconImageView;

    open spec fn view(&self) -> IconImageView {
        IconImageView {
            width: self.width,
            height: self.height,
            hotspot: self.hotspot,
            rgba_data: self.rgba_data@,
        }
    }
}

impl IconImageView {
    /// The pixel buffer holds four bytes for each pixel of the image.
    pub open spec fn well_formed(&self) -> bool {
        self.rgba_data.len() == 4 * (self.width * self.height)
    }
}

/// Why an entry could not be decoded.
#[derive(Clone, Copy, Debug, PartialEq, Eq, Structural)]
pub enum ImageError {
    /// The payload is truncated, or is not a valid PNG file or bitmap.
    Io(IoErrorKind),
    /// The payload is a bitmap of a depth other than 1, 4, 8, 24 or 32 bits.
    UnsupportedBitDepth(u16),
    /// The payload is a bitmap with a pixel whose colour index lies outside
    /// the colour table.
    PaletteIndexOutOfRange,
    /// The decoded pixel buffer does not hold four bytes for each pixel, or
    /// the decoded image has another size than the header of the bitmap gives.
    BufferSizeMismatch,
    /// The decoded pixels are not those that the bitmap holds.
    PixelMismatch,
    /// The payload is longer than a directory can declare.
    PayloadTooLarge,
}

/// The directory that `ico::IconDir::read` makes of a buffer, or the kind of
/// the error that it ends with.
pub uninterp spec fn icon_dir_read(bytes: Seq<u8>) -> Result<IconDirView, IoErrorKind>;

/// What reading a directory gives: what the directory reader makes of the
/// buffer, where that is the directory that the buffer holds. A result that is
/// not counts as invalid data.
pub open spec fn spec_read(bytes: Seq<u8>) -> Result<IconDirView, IoErrorKind> {
    match icon_dir_read(bytes) {
        Err(kind) => Err(kind),
        Ok(dir) => if directory_conforms(bytes, dir) {
            Ok(dir)
        } else {
            Err(IoErrorKind::InvalidData)
        },
    }
}

/// Every directory that is read is the one that the buffer holds: its type,
/// the number of its entries, and the hotspot and the payload of each are
/// those that the bytes of the buffer give.
pub proof fn lemma_read_directory_conforms(bytes: Seq<u8>)
    requires
        spec_read(bytes).is_ok(),
    ensures
        directory_conforms(bytes, spec_read(bytes).unwrap()),
        spec_read(bytes).unwrap().entries.len() == le_u16(bytes, 4),
{
}

/// A buffer whose resource type is neither 1 nor 2, or that is too short to
/// hold the header of a directory, is not read as a directory.
pub proof fn lemma_unknown_resource_type_fails(bytes: Seq<u8>)
    requires
        bytes.len() < 6 || resource_type_of(le_u16(bytes, 2)).is_none(),
    ensures
        spec_read(bytes).is_err(),
{
}

/// The width, the height and the pixels that `ico::IconDirEntry::decode`
/// gives for the first entry of the directory that `ico::IconDir::read` makes
/// of a buffer, or the kind of the error that either call ends with.
pub uninterp spec fn ico_decoded(directory: Seq<u8>) -> Result<(u32, u32, Seq<u8>), IoErrorKind>;

/// Reads a directory with `ico::IconDir::read` from a cursor over `bytes` and
/// copies out of the result what its getters give: the resource type, and for
/// each entry the size, the depth, the hotspot and the payload. The outcome
/// is a function of the buffer alone.
#[verifier::external_body]
pub(crate) fn read_icon_dir(bytes: &[u8]) -> (r: Result<IconDir, IoErrorKind>)
    ensures
        match r {
            Ok(dir) => icon_dir_read(bytes@) == Ok::<IconDirView, IoErrorKind>(dir@),
            Err(kind) => icon_dir_read(bytes@) == Err::<IconDirView, IoErrorKind>(kind),
        },
{
    let dir = match ico::IconDir::read(std::io::Cursor::new(bytes)) {
        Ok(dir) => dir,
        Err(error) => return Err(io_error_kind(&error)),
    };
    let restype = match dir.resource_type() {
        ico::ResourceType::Icon => ResourceType::Icon,
        ico::ResourceType::Cursor => ResourceType::Cursor,
    };
    let mut entries = Vec::new();
    for e in dir.entries() {
        let data = e.data().to_vec();
        entries.push(IconDirEntry::new(e.width(), e.height(), e.bits_per_pixel(), e.cursor_hotspot(), data));
    }
    Ok(IconDir { restype, entries })
}

/// The byte that a directory entry holds for a width or a height: the number
/// itself up to 255, and zero for anything larger.
pub open spec fn size_byte(size: u32) -> u8 {
    if size > 255 {
        0
    } else {
        size as u8
    }
}

/// The two 16-bit fields of a directory entry whose meaning depends on the
/// resource type: the hotspot of a cursor, and one plane and the depth of an
/// icon.
pub open spec fn entry_fields(entry: IconDirEntryView) -> (u16, u16) {
    match entry.hotspot {
        Some(hotspot) => hotspot,
        None => (1u16, entry.bits_per_pixel),
    }
}

/// The first 22 bytes of a directory file with one entry: the 6-byte
/// directory header (reserved, resource type, count) and the 16-byte record
/// of the entry (width, height, colour count, reserved, the two fields that
/// depend on the type, the size of the payload and its offset, 22).
pub open spec fn single_entry_header(entry: IconDirEntryView) -> Seq<u8> {
    let size = entry.data.len() as u32;
    seq![
        0u8,
        0u8,
        if entry.hotspot.is_some() { 2u8 } else { 1u8 },
        0u8,
        1u8,
        0u8,
        size_byte(entry.width),
        size_byte(entry.height),
        0u8,
        0u8,
        (entry_fields(entry).0 % 256) as u8,
        (entry_fields(entry).0 / 256) as u8,
        (entry_fields(entry).1 % 256) as u8,
        (entry_fields(entry).1 / 256) as u8,
        (size % 256) as u8,
        (size / 256 % 256) as u8,
        (size / 65536 % 256) as u8,
        (size / 16777216) as u8,
        22u8,
        0u8,
        0u8,
        0u8,
    ]
}

/// A directory file with one entry: the header and the record of the entry,
/// and its payload after them.
pub open spec fn single_entry_directory(entry: IconDirEntryView) -> Seq<u8> {
    single_entry_header(entry) + entry.data
}

/// Whether a buffer is a directory file with one entry whose payload is the
/// rest of the file: the reserved fields are zero, the resource type is 1 or
/// 2, the count is 1, and the entry declares the offset 22 and the size of
/// what follows it.
pub open spec fn is_single_entry_directory(directory: Seq<u8>) -> bool {
    &&& directory.len() >= 22
    &&& le_u16(directory, 0) == 0
    &&& (le_u16(directory, 2) == 1 || le_u16(directory, 2) == 2)
    &&& le_u16(directory, 4) == 1
    &&& directory[9] == 0
    &&& le_u32(directory, 14) == directory.len() - 22
    &&& le_u32(directory, 18) == 22
}

/// Decodes the entry of a one-entry directory file: `ico::IconDir::read`
/// parses the file, and `ico::IconDirEntry::decode` decodes its first entry.
/// The outcome is a function of the file alone. The file must have the shape
/// that makes the first call succeed with one entry, and its payload must not
/// name a colour outside its colour table, which the second call does not
/// survive.
#[verifier::external_body]
pub(crate) fn decode_single_entry(directory: &[u8]) -> (r: Result<
    (u32, u32, Vec<u8>),
    IoErrorKind,
>)
    requires
        is_single_entry_directory(directory@),
        !has_palette_fault(directory@.skip(22)),
    ensures
        match r {
            Ok(image) => ico_decoded(directory@) == Ok::<(u32, u32, Seq<u8>), IoErrorKind>(
                (image.0, image.1, image.2@),
            ),
            Err(kind) => ico_decoded(directory@) == Err::<(u32, u32, Seq<u8>), IoErrorKind>(kind),
        },
{
    let dir = match ico::IconDir::read(std::io::Cursor::new(directory)) {
        Ok(dir) => dir,
        Err(error) => return Err(io_error_kind(&error)),
    };
    match dir.entries()[0].decode() {
        Ok(image) => Ok((image.width(), image.height(), image.into_rgba_data())),
        Err(error) => Err(io_error_kind(&error)),
    }
}

/// A one-entry directory file has the shape that its name says, and its
/// payload is what follows the first 22 bytes.
pub proof fn lemma_single_entry_directory(entry: IconDirEntryView)
    requires
        entry.data.len() <= u32::MAX,
    ensures
        is_single_entry_directory(single_entry_directory(entry)),
        single_entry_directory(entry).skip(22) == entry.data,
{
    let header = single_entry_header(entry);
    let directory = single_entry_directory(entry);
    assert(header.len() == 22);
    assert(directory.len() == 22 + entry.data.len());
    assert(directory.skip(22) =~= entry.data);
    assert forall|i: int| 0 <= i < 22 implies directory[i] == header[i] by {}
    assert(directory[0] == 0 && directory[1] == 0);
    assert(directory[2] == 1 || directory[2] == 2);
    assert(directory[3] == 0);
    assert(directory[4] == 1 && directory[5] == 0);
    assert(directory[9] == 0);
    assert(directory[18] == 22 && directory[19] == 0 && directory[20] == 0 && directory[21] == 0);
    let size = entry.data.len() as u32;
    assert(directory[14] == (size % 256) as u8);
    assert(directory[15] == (size / 256 % 256) as u8);
    assert(directory[16] == (size / 65536 % 256) as u8);
    assert(directory[17] == (size / 16777216) as u8);
    assert(le_u32(directory, 14) == size);
}

/// Whether a payload starts with the signature of a PNG file.
pub open spec fn is_png_data(data: Seq<u8>) -> bool {
    data.len() >= 4 && data[0] == 0x89 && data[1] == 0x50 && data[2] == 0x4e && data[3] == 0x47
}

/// Why a payload is refused before it is decoded, if it is: it is a bitmap
/// of an unsupported depth, or one that names a colour outside its colour
/// table.
pub open spec fn spec_refusal(data: Seq<u8>) -> Option<ImageError> {
    match bmp_header(data) {
        Some(header) => if !is_supported_depth(header.bits_per_pixel) {
            Some(ImageError::UnsupportedBitDepth(header.bits_per_pixel))
        } else if has_palette_fault(data) {
            Some(ImageError::PaletteIndexOutOfRange)
        } else {
            None
        },
        None => None,
    }
}

/// What is made of the width, the height and the pixels that a decoder gave
/// for the payload of an entry.
///
/// The pixel buffer must hold four bytes for each pixel. For a bitmap the
/// size must be the one that its header gives, the payload must hold every row
/// that the header announces, and each pixel must be the one that the payload
/// holds. A PNG file is taken as it was decoded. The image takes the hotspot
/// of the entry.
pub open spec fn spec_accept(
    entry: IconDirEntryView,
    width: u32,
    height: u32,
    rgba_data: Seq<u8>,
) -> Result<IconImageView, ImageError> {
    let image = IconImageView { width, height, hotspot: entry.hotspot, rgba_data };
    if spec_refusal(entry.data).is_some() {
        Err(spec_refusal(entry.data).unwrap())
    } else if rgba_data.len() != 4 * (width * height) {
        Err(ImageError::BufferSizeMismatch)
    } else {
        match bmp_header(entry.data) {
            None => Ok(image),
            Some(header) => if header.width != width || header.height != height {
                Err(ImageError::BufferSizeMismatch)
            } else if is_complete(entry.data, header) && is_bmp_image(
                entry.data,
                header,
                rgba_data,
            ) {
                Ok(image)
            } else {
                Err(ImageError::PixelMismatch)
            },
        }
    }
}

/// What decoding an entry gives.
///
/// A payload that is too long for a directory, a bitmap of an unsupported
/// depth and a bitmap that names a colour outside its colour table are
/// refused. Every other payload is framed as a one-entry directory and
/// decoded, and what comes back is held against the payload.
#[verifier::opaque]
pub open spec fn spec_decode(entry: IconDirEntryView) -> Result<IconImageView, ImageError> {
    if entry.data.len() > u32::MAX {
        Err(ImageError::PayloadTooLarge)
    } else if spec_refusal(entry.data).is_some() {
        Err(spec_refusal(entry.data).unwrap())
    } else {
        match ico_decoded(single_entry_directory(entry)) {
            Err(kind) => Err(ImageError::Io(kind)),
            Ok(image) => spec_accept(entry, image.0, image.1, image.2),
        }
    }
}

/// Whatever the payload of an entry is, a PNG file or a bitmap of any
/// supported depth: where the entry decodes, the pixel buffer of the image
/// holds four bytes for each of its pixels, and the image has the hotspot of
/// the entry.
pub proof fn lemma_decoded_image_is_well_formed(entry: IconDirEntryView)
    requires
        spec_decode(entry).is_ok(),
    ensures
        spec_decode(entry).unwrap().well_formed(),
        spec_decode(entry).unwrap().hotspot == entry.hotspot,
{
    reveal(spec_decode);
}

/// Where a bitmap decodes, its depth is 1, 4, 8, 24 or 32 bits, the payload
/// holds every row that its header announces, the image has the size that the
/// header gives, and each pixel is the one that the payload holds: the colour
/// that its index names in the colour table, or the colour that it holds
/// itself, and the alpha that it holds itself or that the mask gives it.
pub proof fn lemma_decoded_bitmap(entry: IconDirEntryView)
    requires
        spec_decode(entry).is_ok(),
        bmp_header(entry.data).is_some(),
    ensures
        is_supported_depth(bmp_header(entry.data).unwrap().bits_per_pixel),
        is_complete(entry.data, bmp_header(entry.data).unwrap()),
        spec_decode(entry).unwrap().width == bmp_header(entry.data).unwrap().width,
        spec_decode(entry).unwrap().height == bmp_header(entry.data).unwrap().height,
        is_bmp_image(
            entry.data,
            bmp_header(entry.data).unwrap(),
            spec_decode(entry).unwrap().rgba_data,
        ),
{
    reveal(spec_decode);
}

/// A bitmap of a depth other than 1, 4, 8, 24 and 32 bits does not decode.
pub proof fn lemma_unsupported_depth_is_refused(entry: IconDirEntryView)
    requires
        entry.data.len() <= u32::MAX,
        bmp_header(entry.data).is_some(),
        !is_supported_depth(bmp_header(entry.data).unwrap().bits_per_pixel),
    ensures
        spec_decode(entry) == Err::<IconImageView, ImageError>(
            ImageError::UnsupportedBitDepth(bmp_header(entry.data).unwrap().bits_per_pixel),
        ),
{
    reveal(spec_decode);
}

impl IconDir {
    /// Reads an ICO or CUR file that is held in memory. The directory that
    /// comes back is held against the bytes of the buffer before it is handed
    /// out.
    pub fn read(bytes: &[u8]) -> (r: Result<IconDir, IoErrorKind>)
        ensures
            match r {
                Ok(dir) => spec_read(bytes@) == Ok::<IconDirView, IoErrorKind>(dir@),
                Err(kind) => spec_read(bytes@) == Err::<IconDirView, IoErrorKind>(kind),
            },
    {
        match read_icon_dir(bytes) {
            Ok(dir) => {
                if check_directory(bytes, &dir) {
                    Ok(dir)
                } else {
                    Err(IoErrorKind::InvalidData)
                }
            },
            Err(kind) => Err(kind),
        }
    }

    /// The type of resource stored in this collection.
    pub fn resource_type(&self) -> (restype: ResourceType)
        ensures
            restype == self.restype,
    {
        self.restype
    }

    /// The entries in this collection.
    pub fn entries(&self) -> (entries: &Vec<IconDirEntry>)
        ensures
            entries == &self.entries,
    {
        &self.entries
    }
}

impl IconDirEntry {
    /// An entry with the given size, depth, hotspot and payload.
    pub fn new(
        width: u32,
        height: u32,
        bits_per_pixel: u16,
        hotspot: Option<(u16, u16)>,
        data: Vec<u8>,
    ) -> (entry: IconDirEntry)
        ensures
            entry@ == (IconDirEntryView { width, height, bits_per_pixel, hotspot, data: data@ }),
    {
        IconDirEntry { width, height, bits_per_pixel, hotspot, data }
    }

    /// The type of resource stored in this entry: a cursor where it has a
    /// hotspot, an icon where it has none.
    pub fn resource_type(&self) -> (restype: ResourceType)
        ensures
            restype == self@.resource_type(),
    {
        if self.hotspot.is_some() {
            ResourceType::Cursor
        } else {
            ResourceType::Icon
        }
    }

    /// The width of the image, in pixels.
    pub fn width(&self) -> (width: u32)
        ensures
            width == self.width,
    {
        self.width
    }

    /// The height of the image, in pixels.
    pub fn height(&self) -> (height: u32)
        ensures
            height == self.height,
    {
        self.height
    }

    /// The coordinates of the cursor hotspot, or `None` for an icon.
    pub fn cursor_hotspot(&self) -> (hotspot: Option<(u16, u16)>)
        ensures
            hotspot == self.hotspot,
    {
        self.hotspot
    }

    /// The raw, encoded image data.
    pub fn data(&self) -> (data: &Vec<u8>)
        ensures
            data == &self.data,
    {
        &self.data
    }

    /// Whether the image is encoded as a PNG file rather than as a bitmap.
    pub fn is_png(&self) -> (r: bool)
        ensures
            r == is_png_data(self.data@),
    {
        self.data.len() >= 4 && self.data[0] == 0x89 && self.data[1] == 0x50 && self.data[2]
            == 0x4e && self.data[3] == 0x47
    }

    /// Frames the entry as a directory file with this one entry.
    pub fn to_directory(&self) -> (directory: Vec<u8>)
        requires
            self.data@.len() <= u32::MAX,
        ensures
            directory@ == single_entry_directory(self@),
            is_single_entry_directory(directory@),
            directory@.skip(22) == self.data@,
    {
        let restype: u8 = if self.hotspot.is_some() {
            2
        } else {
            1
        };
        let fields: (u16, u16) = match self.hotspot {
            Some(hotspot) => hotspot,
            None => (1u16, self.bits_per_pixel),
        };
        let size: u32 = self.data.len() as u32;
        let width: u8 = if self.width > 255 {
            0
        } else {
            self.width as u8
        };
        let height: u8 = if self.height > 255 {
            0
        } else {
            self.height as u8
        };
        let mut directory: Vec<u8> = vec![
            0u8,
            0u8,
            restype,
            0u8,
            1u8,
            0u8,
            width,
            height,
            0u8,
            0u8,
            (fields.0 % 256) as u8,
            (fields.0 / 256) as u8,
            (fields.1 % 256) as u8,
            (fields.1 / 256) as u8,
            (size % 256) as u8,
            (size / 256 % 256) as u8,
            (size / 65536 % 256) as u8,
            (size / 16777216) as u8,
            22u8,
            0u8,
            0u8,
            0u8,
        ];
        assert(directory@ =~= single_entry_header(self@));
        directory.extend_from_slice(self.data.as_slice());
        proof {
            lemma_single_entry_directory(self@);
        }
        directory
    }

    /// Tells why the payload is refused before it is decoded, if it is.
    pub fn refusal(&self) -> (r: Option<ImageError>)
        ensures
            r == spec_refusal(self.data@),
    {
        match read_bmp_header(self.data.as_slice()) {
            Some(header) => {
                if !header.has_supported_depth() {
                    Some(ImageError::UnsupportedBitDepth(header.bits_per_pixel))
                } else if check_palette_fault(self.data.as_slice()) {
                    Some(ImageError::PaletteIndexOutOfRange)
                } else {
                    None
                }
            },
            None => None,
        }
    }

    /// Makes the image of this entry of the width, the height and the pixels
    /// that a decoder gave for its payload, where they are those that the
    /// payload holds.
    pub fn accept_decoded(&self, width: u32, height: u32, rgba_data: Vec<u8>) -> (r: Result<
        IconImage,
        ImageError,
    >)
        ensures
            match r {
                Ok(image) => spec_accept(self@, width, height, rgba_data@) == Ok::<
                    IconImageView,
                    ImageError,
                >(image@) && image@.well_formed(),
                Err(error) => spec_accept(self@, width, height, rgba_data@) == Err::<
                    IconImageView,
                    ImageError,
                >(error),
            },
    {
        match self.refusal() {
            Some(error) => {
                return Err(error);
            },
            None => {},
        }
        assert((width as u128) * (height as u128) <= 0xffff_ffff * 0xffff_ffff)
            by (nonlinear_arith)
            requires
                width <= 0xffff_ffff,
                height <= 0xffff_ffff,
        ;
        let pixels: u128 = (width as u128) * (height as u128);
        if (rgba_data.len() as u128) != 4 * pixels {
            return Err(ImageError::BufferSizeMismatch);
        }
        match read_bmp_header(self.data.as_slice()) {
            Some(header) => {
                if header.width != width || header.height != height {
                    return Err(ImageError::BufferSizeMismatch);
                }
                if !pixels_match(self.data.as_slice(), &header, rgba_data.as_slice()) {
                    return Err(ImageError::PixelMismatch);
                }
            },
            None => {},
        }
        Ok(IconImage { width, height, hotspot: self.hotspot, rgba_data })
    }

    /// Decodes this entry into an image.
    pub fn decode(&self) -> (r: Result<IconImage, ImageError>)
        ensures
            match r {
                Ok(image) => spec_decode(self@) == Ok::<IconImageView, ImageError>(image@)
                    && image@.well_formed(),
                Err(error) => spec_decode(self@) == Err::<IconImageView, ImageError>(error),
            },
    {
        reveal(spec_decode);
        if self.data.len() as u64 > 0xffff_ffff {
            return Err(ImageError::PayloadTooLarge);
        }
        match self.refusal() {
            Some(error) => {
                return Err(error);
            },
            None => {},
        }
        let directory = self.to_directory();
        match decode_single_entry(directory.as_slice()) {
            Err(kind) => Err(ImageError::Io(kind)),
            Ok((width, height, rgba_data)) => self.accept_decoded(width, height, rgba_data),
        }
    }
}

} // verus!
