//! Loading a static cursor: from the bytes of a CUR file to the images and
//! the hotspots that a renderer needs.

use crate::asset_image::RgbaImage;
use crate::cur::decoder::{spec_decode, DecodeError, Decoder};
use crate::frame::{
    holds_frames, holds_images, spec_cursor_frame, CursorFrame, CursorFrameView, FrameError,
};
use crate::hotspot::CursorHotspots;
use crate::icon::{IconDirEntry, IconDirEntryView, ImageError, ResourceType};
use vstd::prelude::*;

verus! {

/// Why a static cursor could not be loaded.
#[derive(Clone, Copy, Debug, PartialEq, Eq, Structural)]
pub enum StaticCursorLoaderError {
    /// The CUR file could not be decoded.
    DecodeError(DecodeError),
    /// An entry is not a cursor; the type that it has instead.
    InvalidResourceType(ResourceType),
    /// A decoded image has no hotspot.
    MissingHotspot,
    /// The decoded pixel buffer of an image does not fit its size.
    ImageBufferError,
    /// An image could not be decoded.
    Image(ImageError),
}

/// The loader's error for a frame that could not be made of an entry.
pub open spec fn spec_frame_error(error: FrameError) -> StaticCursorLoaderError {
    match error {
        FrameError::InvalidResourceType(found) => StaticCursorLoaderError::InvalidResourceType(
            found,
        ),
        FrameError::Image(error) => StaticCursorLoaderError::Image(error),
        FrameError::ImageBufferError => StaticCursorLoaderError::ImageBufferError,
        FrameError::MissingHotspot => StaticCursorLoaderError::MissingHotspot,
    }
}

/// The frames that the entries `entries[from..]` give, in order, or the error
/// of the first that gives none.
pub open spec fn spec_static_frames(entries: Seq<IconDirEntryView>, from: int) -> Result<
    Seq<CursorFrameView>,
    StaticCursorLoaderError,
>
    decreases entries.len() - from,
{
    if from < 0 || from >= entries.len() {
        Ok(Seq::empty())
    } else {
        match spec_cursor_frame(entries[from]) {
            Err(error) => Err(spec_frame_error(error)),
            Ok(frame) => match spec_static_frames(entries, from + 1) {
                Err(error) => Err(error),
                Ok(rest) => Ok(seq![frame] + rest),
            },
        }
    }
}

/// Entries that all give a frame give as many frames as there are entries.
pub proof fn lemma_static_frames_len(entries: Seq<IconDirEntryView>, from: int)
    requires
        0 <= from <= entries.len(),
        spec_static_frames(entries, from).is_ok(),
    ensures
        spec_static_frames(entries, from).unwrap().len() == entries.len() - from,
    decreases entries.len() - from,
{
    if from < entries.len() {
        lemma_static_frames_len(entries, from + 1);
    }
}

/// What loading a CUR file gives: the directory is decoded, and then each of
/// its entries, in the order of the directory.
pub open spec fn spec_load(bytes: Seq<u8>) -> Result<Seq<CursorFrameView>, StaticCursorLoaderError> {
    match spec_decode(bytes) {
        Err(error) => Err(StaticCursorLoaderError::DecodeError(error)),
        Ok(dir) => spec_static_frames(dir.entries, 0),
    }
}

/// A static cursor, ready to be handed to a renderer.
#[derive(Debug)]
pub struct StaticCursor {
    /// The images of the cursor, in the order of the directory.
    pub frames: Vec<RgbaImage>,
    /// The hotspot data.
    pub hotspots: CursorHotspots,
}

impl StaticCursor {
    /// Returns the hotspot for the image at the given index, or the default
    /// hotspot where the index has none of its own.
    ///
    /// Most CUR files hold one image, so that index 0 is the one to ask for.
    pub fn hotspot_or_default(&self, index: usize) -> (hotspot: (u16, u16))
        ensures
            hotspot == self.hotspots.spec_get_or_default(index),
    {
        self.hotspots.get_or_default(index)
    }

    /// The cursor made of decoded frames: the images, and a table with the
    /// hotspot of each frame as an override for its index.
    pub fn from_frames(images: Vec<RgbaImage>, hotspots: &Vec<(u16, u16)>) -> (cursor: StaticCursor)
        ensures
            cursor.frames@ == images@,
            cursor.hotspots.default == (0u16, 0u16),
            forall|i: usize| cursor.hotspots.overrides@.contains_key(i) <==> i < hotspots@.len(),
            forall|i: usize|
                i < hotspots@.len() ==> #[trigger] cursor.hotspots.overrides@[i] == hotspots@[i as int],
    {
        StaticCursor { frames: images, hotspots: CursorHotspots::from_frames(hotspots) }
    }
}

/// A loader for static cursors from the bytes of CUR files.
#[derive(Clone, Copy, Debug)]
pub struct StaticCursorLoader;

/// The loader's error for a frame that could not be made of an entry.
fn frame_error(error: FrameError) -> (r: StaticCursorLoaderError)
    ensures
        r == spec_frame_error(error),
{
    match error {
        FrameError::InvalidResourceType(found) => StaticCursorLoaderError::InvalidResourceType(
            found,
        ),
        FrameError::Image(error) => StaticCursorLoaderError::Image(error),
        FrameError::ImageBufferError => StaticCursorLoaderError::ImageBufferError,
        FrameError::MissingHotspot => StaticCursorLoaderError::MissingHotspot,
    }
}

impl StaticCursorLoader {
    /// Decodes the entries of a cursor directory, in order, into the images
    /// and the hotspots of the frames.
    pub fn decode_frames(entries: &Vec<IconDirEntry>) -> (r: Result<
        (Vec<RgbaImage>, Vec<(u16, u16)>),
        StaticCursorLoaderError,
    >)
        ensures
            match r {
                Ok(decoded) => {
                    let expected = spec_static_frames(
                        entries@.map_values(|entry: IconDirEntry| entry@),
                        0,
                    );
                    &&& expected.is_ok()
                    &&& holds_images(decoded.0@, decoded.1@, expected.unwrap())
                },
                Err(error) => spec_static_frames(
                    entries@.map_values(|entry: IconDirEntry| entry@),
                    0,
                ) == Err::<Seq<CursorFrameView>, StaticCursorLoaderError>(error),
            },
    {
        let ghost views = entries@.map_values(|entry: IconDirEntry| entry@);
        let ghost mut done: Seq<CursorFrameView> = Seq::empty();
        let mut images: Vec<RgbaImage> = Vec::new();
        let mut hotspots: Vec<(u16, u16)> = Vec::new();
        let mut i: usize = 0;
        while i < entries.len()
            invariant
                views == entries@.map_values(|entry: IconDirEntry| entry@),
                i <= entries@.len(),
                holds_images(images@, hotspots@, done),
                match spec_static_frames(views, i as int) {
                    Ok(rest) => spec_static_frames(views, 0) == Ok::<
                        Seq<CursorFrameView>,
                        StaticCursorLoaderError,
                    >(done + rest),
                    Err(error) => spec_static_frames(views, 0) == Err::<
                        Seq<CursorFrameView>,
                        StaticCursorLoaderError,
                    >(error),
                },
            decreases entries@.len() - i,
        {
            assert(views[i as int] == entries@[i as int]@);
            let frame = match CursorFrame::decode(&entries[i]) {
                Ok(frame) => frame,
                Err(error) => {
                    return Err(frame_error(error));
                },
            };
            proof {
                match spec_static_frames(views, i + 1) {
                    Ok(rest) => {
                        assert(done + (seq![frame@] + rest) =~= done.push(frame@) + rest);
                    },
                    Err(_) => {},
                }
                done = done.push(frame@);
            }
            let CursorFrame { image, hotspot } = frame;
            images.push(image);
            hotspots.push(hotspot);
            i += 1;
        }
        proof {
            assert(done + Seq::<CursorFrameView>::empty() =~= done);
        }
        Ok((images, hotspots))
    }

    /// Loads a static cursor from the bytes of a CUR file.
    ///
    /// The result holds one image for each entry of the directory and a
    /// hotspot override for the index of each.
    pub fn load(&self, bytes: Vec<u8>) -> (r: Result<StaticCursor, StaticCursorLoaderError>)
        ensures
            match r {
                Ok(cursor) => spec_load(bytes@).is_ok() && holds_frames(
                    cursor.frames@,
                    cursor.hotspots,
                    spec_load(bytes@).unwrap(),
                ),
                Err(error) => spec_load(bytes@) == Err::<
                    Seq<CursorFrameView>,
                    StaticCursorLoaderError,
                >(error),
            },
    {
        let decoder = Decoder::new(bytes);
        let decoded = match decoder.decode() {
            Ok(decoded) => decoded,
            Err(error) => {
                return Err(StaticCursorLoaderError::DecodeError(error));
            },
        };
        let (images, hotspots) = match StaticCursorLoader::decode_frames(&decoded.0.entries) {
            Ok(frames) => frames,
            Err(error) => {
                return Err(error);
            },
        };
        Ok(StaticCursor::from_frames(images, &hotspots))
    }

    /// The file extensions of the files that this loader reads.
    pub fn extensions(&self) -> (extensions: Vec<&'static str>)
        ensures
            extensions@.len() == 2,
            extensions@[0]@ == "CUR"@,
            extensions@[1]@ == "cur"@,
    {
        let mut extensions: Vec<&'static str> = Vec::new();
        extensions.push("CUR");
        extensions.push("cur");
        extensions
    }
}

} // verus!
