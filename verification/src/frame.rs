//! One frame of a cursor: its pixels and its hotspot, made from one entry of
//! a cursor directory.

use crate::asset_image::{RgbaImage, RgbaImageView};
use crate::hotspot::CursorHotspots;
use crate::icon::{
    spec_decode, IconDirEntry, IconDirEntryView, IconImage, IconImageView, ImageError, ResourceType,
};
use vstd::prelude::*;

verus! {

/// A decoded frame of a cursor.
#[derive(Debug)]
pub struct CursorFrame {
    /// The pixels of the frame.
    pub image: RgbaImage,
    /// The click point of the frame, counted from its top-left corner.
    pub hotspot: (u16, u16),
}

/// What a frame holds, with its pixels as a sequence.
pub struct CursorFrameView {
    pub image: RgbaImageView,
    pub hotspot: (u16, u16),
}

impl View for CursorFrame {
    type V = CursorFrameView;

    open spec fn view(&self) -> CursorFrameView {
        CursorFrameView { image: self.image@, hotspot: self.hotspot }
    }
}

/// Why an entry of a directory does not give a frame.
#[derive(Clone, Copy, Debug, PartialEq, Eq, Structural)]
pub enum FrameError {
    /// The entry is not a cursor; the type that it has instead.
    InvalidResourceType(ResourceType),
    /// The entry could not be decoded.
    Image(ImageError),
    /// The decoded pixel buffer does not fit the decoded size.
    ImageBufferError,
    /// The decoded image has no hotspot.
    MissingHotspot,
}

/// The frame that a decoded image gives: its pixels, where the buffer holds
/// four bytes for each of them, with its hotspot, where it has one.
pub open spec fn spec_frame_from_image(image: IconImageView) -> Result<CursorFrameView, FrameError> {
    if image.rgba_data.len() != 4 * (image.width * image.height) {
        Err(FrameError::ImageBufferError)
    } else {
        match image.hotspot {
            None => Err(FrameError::MissingHotspot),
            Some(hotspot) => Ok(
                CursorFrameView {
                    image: RgbaImageView {
                        width: image.width,
                        height: image.height,
                        data: image.rgba_data,
                    },
                    hotspot,
                },
            ),
        }
    }
}

/// The frame that an entry of a directory gives: the entry must be a cursor,
/// and is then decoded.
pub open spec fn spec_cursor_frame(entry: IconDirEntryView) -> Result<CursorFrameView, FrameError> {
    if entry.resource_type() != ResourceType::Cursor {
        Err(FrameError::InvalidResourceType(entry.resource_type()))
    } else {
        match spec_decode(entry) {
            Err(error) => Err(FrameError::Image(error)),
            Ok(image) => spec_frame_from_image(image),
        }
    }
}

/// An entry that is not a cursor gives an error that names its type, and
/// never a frame.
pub proof fn lemma_entry_that_is_no_cursor_is_refused(entry: IconDirEntryView)
    requires
        entry.resource_type() != ResourceType::Cursor,
    ensures
        spec_cursor_frame(entry) == Err::<CursorFrameView, FrameError>(
            FrameError::InvalidResourceType(entry.resource_type()),
        ),
{
}

/// The image of every frame holds four bytes for each of its pixels.
pub proof fn lemma_frame_image_is_well_formed(entry: IconDirEntryView)
    requires
        spec_cursor_frame(entry).is_ok(),
    ensures
        spec_cursor_frame(entry).unwrap().image.well_formed(),
{
}

impl CursorFrame {
    /// Makes a frame of a decoded image.
    pub fn from_image(image: IconImage) -> (r: Result<CursorFrame, FrameError>)
        ensures
            match r {
                Ok(frame) => spec_frame_from_image(image@) == Ok::<CursorFrameView, FrameError>(
                    frame@,
                ) && frame.image.well_formed(),
                Err(error) => spec_frame_from_image(image@) == Err::<CursorFrameView, FrameError>(
                    error,
                ),
            },
    {
        let hotspot = image.hotspot;
        let pixels = match RgbaImage::from_raw(image.width, image.height, image.rgba_data) {
            Some(pixels) => pixels,
            None => {
                return Err(FrameError::ImageBufferError);
            },
        };
        match hotspot {
            Some(hotspot) => Ok(CursorFrame { image: pixels, hotspot }),
            None => Err(FrameError::MissingHotspot),
        }
    }

    /// Decodes an entry of a cursor directory into a frame.
    pub fn decode(entry: &IconDirEntry) -> (r: Result<CursorFrame, FrameError>)
        ensures
            match r {
                Ok(frame) => spec_cursor_frame(entry@) == Ok::<CursorFrameView, FrameError>(frame@)
                    && frame.image.well_formed(),
                Err(error) => spec_cursor_frame(entry@) == Err::<CursorFrameView, FrameError>(
                    error,
                ),
            },
    {
        let restype = entry.resource_type();
        if restype != ResourceType::Cursor {
            return Err(FrameError::InvalidResourceType(restype));
        }
        match entry.decode() {
            Ok(image) => CursorFrame::from_image(image),
            Err(error) => Err(FrameError::Image(error)),
        }
    }
}

/// Whether `images` and `hotspots` are the images and the hotspots of the
/// given frames, in order.
pub open spec fn holds_images(
    images: Seq<RgbaImage>,
    hotspots: Seq<(u16, u16)>,
    frames: Seq<CursorFrameView>,
) -> bool {
    &&& images.len() == frames.len()
    &&& hotspots.len() == frames.len()
    &&& forall|i: int| 0 <= i < frames.len() ==> (#[trigger] images[i])@ == frames[i].image
    &&& forall|i: int| 0 <= i < frames.len() ==> (#[trigger] images[i]).well_formed()
    &&& forall|i: int| 0 <= i < frames.len() ==> #[trigger] hotspots[i] == frames[i].hotspot
}

/// Whether `images` and `hotspots` hold the given frames: the images are
/// those of the frames in order, and the table of hotspots has an override
/// for the index of each frame and for no other, with a default of `(0, 0)`.
pub open spec fn holds_frames(
    images: Seq<RgbaImage>,
    hotspots: CursorHotspots,
    frames: Seq<CursorFrameView>,
) -> bool {
    &&& images.len() == frames.len()
    &&& forall|i: int| 0 <= i < frames.len() ==> (#[trigger] images[i])@ == frames[i].image
    &&& forall|i: int| 0 <= i < frames.len() ==> (#[trigger] images[i]).well_formed()
    &&& hotspots.default == (0u16, 0u16)
    &&& forall|i: usize| hotspots.overrides@.contains_key(i) <==> i < frames.len()
    &&& forall|i: usize|
        i < frames.len() ==> #[trigger] hotspots.overrides@[i] == frames[i as int].hotspot
}

} // verus!
