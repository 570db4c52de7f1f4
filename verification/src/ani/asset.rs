//! Loading an animated cursor: from the bytes of an ANI file to the frames,
//! the hotspots and the animation that a renderer needs.

use crate::ani::animation::Animation;
use crate::ani::decoder::{spec_decode, DecodeError, Decoder};
use crate::ani::{frame_millis, AnimatedCursorMetadata};
use crate::asset_image::RgbaImage;
use crate::bytes::{get_u32_le, le_u16, le_u32, u32_le_bytes};
use crate::chunk::{chunk_at, id_at, list_error, spec_riff_id};
use crate::frame::{
    holds_frames, holds_images, spec_cursor_frame, CursorFrame, CursorFrameView, FrameError,
};
use crate::hotspot::CursorHotspots;
use crate::icon::{IconDir, IconDirView, ImageError};
use vstd::prelude::*;

verus! {

/// Whether a buffer starts with a `RIFF` chunk whose size field holds the
/// length of the whole buffer, where it should hold that length less the 8
/// bytes of the chunk's own header.
pub open spec fn has_size_quirk(bytes: Seq<u8>) -> bool {
    bytes.len() >= 8 && id_at(bytes, 0) == spec_riff_id() && le_u32(bytes, 4) == bytes.len()
}

/// The buffer with the size field of its root chunk set right, where it has
/// the quirk; the buffer itself, where it has not.
pub open spec fn corrected(bytes: Seq<u8>) -> Seq<u8> {
    if has_size_quirk(bytes) {
        bytes.subrange(0, 4) + u32_le_bytes((bytes.len() - 8) as u32) + bytes.skip(8)
    } else {
        bytes
    }
}

/// Correcting a buffer leaves one without the quirk: the size field no
/// longer holds the length of the buffer, so that correcting once more
/// changes nothing.
pub proof fn lemma_correction_is_idempotent(bytes: Seq<u8>)
    ensures
        !has_size_quirk(corrected(bytes)),
        corrected(corrected(bytes)) == corrected(bytes),
        corrected(bytes).len() == bytes.len(),
{
    if has_size_quirk(bytes) {
        let size = (bytes.len() - 8) as u32;
        let fixed = corrected(bytes);
        crate::bytes::lemma_u32_le_round_trip(size);
        assert(fixed.len() == bytes.len());
        assert(fixed[4] == u32_le_bytes(size)[0]);
        assert(fixed[5] == u32_le_bytes(size)[1]);
        assert(fixed[6] == u32_le_bytes(size)[2]);
        assert(fixed[7] == u32_le_bytes(size)[3]);
        assert(le_u32(fixed, 4) == size);
    }
}

/// Sets the size field of the root chunk right where it holds the length of
/// the whole buffer. Some producers of ANI files write the file size there,
/// which is 8 too many, and a reader of chunks then looks for a chunk past
/// the end of the file.
pub fn correct_riff_size(bytes: &mut Vec<u8>)
    ensures
        final(bytes)@ == corrected(old(bytes)@),
{
    let len = bytes.len();
    if len < 8 {
        return ;
    }
    if bytes[0] != 0x52 || bytes[1] != 0x49 || bytes[2] != 0x46 || bytes[3] != 0x46 {
        return ;
    }
    let declared = get_u32_le(bytes.as_slice(), 4).unwrap();
    if declared as u64 != len as u64 {
        return ;
    }
    let size: u32 = (len - 8) as u32;
    bytes.set(4, (size % 256) as u8);
    bytes.set(5, (size / 256 % 256) as u8);
    bytes.set(6, (size / 65536 % 256) as u8);
    bytes.set(7, (size / 16777216) as u8);
    assert(bytes@ =~= corrected(old(bytes)@));
}

/// Why an animated cursor could not be loaded.
#[derive(Clone, Copy, Debug, PartialEq, Eq, Structural)]
pub enum AnimatedCursorLoaderError {
    /// The ANI file could not be decoded.
    DecodeError(DecodeError),
    /// A frame holds a directory with this many entries, where it must hold
    /// exactly one.
    UnsupportedFrameEntryCount(usize),
    /// A frame holds an icon, where it must hold a cursor.
    InvalidResourceType,
    /// A decoded frame has no hotspot.
    MissingHotspot,
    /// The decoded pixel buffer of a frame does not fit its size.
    ImageBufferError,
    /// The image of a frame could not be decoded.
    Image(ImageError),
}

/// The loader's error for a frame that could not be made of an entry.
pub open spec fn spec_frame_error(error: FrameError) -> AnimatedCursorLoaderError {
    match error {
        FrameError::InvalidResourceType(_) => AnimatedCursorLoaderError::InvalidResourceType,
        FrameError::Image(error) => AnimatedCursorLoaderError::Image(error),
        FrameError::ImageBufferError => AnimatedCursorLoaderError::ImageBufferError,
        FrameError::MissingHotspot => AnimatedCursorLoaderError::MissingHotspot,
    }
}

/// The frame that the directory of a frame chunk gives: the directory must
/// hold exactly one entry, which must be a cursor and is then decoded.
pub open spec fn spec_animated_frame(frame: IconDirView) -> Result<
    CursorFrameView,
    AnimatedCursorLoaderError,
> {
    if frame.entries.len() != 1 {
        Err(AnimatedCursorLoaderError::UnsupportedFrameEntryCount(frame.entries.len() as usize))
    } else {
        match spec_cursor_frame(frame.entries[0]) {
            Err(error) => Err(spec_frame_error(error)),
            Ok(decoded) => Ok(decoded),
        }
    }
}

/// The frames that the directories `frames[from..]` give, in order, or the
/// error of the first that gives none.
pub open spec fn spec_animated_frames(frames: Seq<IconDirView>, from: int) -> Result<
    Seq<CursorFrameView>,
    AnimatedCursorLoaderError,
>
    decreases frames.len() - from,
{
    if from < 0 || from >= frames.len() {
        Ok(Seq::empty())
    } else {
        match spec_animated_frame(frames[from]) {
            Err(error) => Err(error),
            Ok(frame) => match spec_animated_frames(frames, from + 1) {
                Err(error) => Err(error),
                Ok(rest) => Ok(seq![frame] + rest),
            },
        }
    }
}

/// Directories that all give a frame give as many frames as there are
/// directories.
pub proof fn lemma_animated_frames_len(frames: Seq<IconDirView>, from: int)
    requires
        0 <= from <= frames.len(),
        spec_animated_frames(frames, from).is_ok(),
    ensures
        spec_animated_frames(frames, from).unwrap().len() == frames.len() - from,
    decreases frames.len() - from,
{
    if from < frames.len() {
        lemma_animated_frames_len(frames, from + 1);
    }
}

/// A frame whose directory holds no entry, or more than one, gives an error
/// that carries the number of entries found.
pub proof fn lemma_frame_entry_count(frame: IconDirView)
    requires
        frame.entries.len() != 1,
    ensures
        spec_animated_frame(frame) == Err::<CursorFrameView, AnimatedCursorLoaderError>(
            AnimatedCursorLoaderError::UnsupportedFrameEntryCount(frame.entries.len() as usize),
        ),
{
}

/// A frame whose one entry is not a cursor gives the error for a wrong
/// resource type, and never a frame.
pub proof fn lemma_frame_that_is_no_cursor_is_refused(frame: IconDirView)
    requires
        frame.entries.len() == 1,
        frame.entries[0].resource_type() != crate::icon::ResourceType::Cursor,
    ensures
        spec_animated_frame(frame) == Err::<CursorFrameView, AnimatedCursorLoaderError>(
            AnimatedCursorLoaderError::InvalidResourceType,
        ),
{
}

/// A frame chunk whose directory counts no entry, or more than one, gives
/// the error that carries the count.
pub proof fn lemma_frame_directory_count(contents: Seq<u8>)
    requires
        crate::icon::spec_read(contents).is_ok(),
        le_u16(contents, 4) != 1,
    ensures
        spec_animated_frame(crate::icon::spec_read(contents).unwrap()) == Err::<
            CursorFrameView,
            AnimatedCursorLoaderError,
        >(AnimatedCursorLoaderError::UnsupportedFrameEntryCount(le_u16(contents, 4) as usize)),
{
}

/// A frame chunk whose directory holds one entry and is of the type of icons
/// gives the error for a wrong resource type.
pub proof fn lemma_frame_directory_of_icons(contents: Seq<u8>)
    requires
        crate::icon::spec_read(contents).is_ok(),
        le_u16(contents, 4) == 1,
        le_u16(contents, 2) == 1,
    ensures
        spec_animated_frame(crate::icon::spec_read(contents).unwrap()) == Err::<
            CursorFrameView,
            AnimatedCursorLoaderError,
        >(AnimatedCursorLoaderError::InvalidResourceType),
{
    let dir = crate::icon::spec_read(contents).unwrap();
    assert(crate::directory::entry_conforms(contents, dir.restype, 0, dir.entries[0]));
}

/// What an ANI file decodes to: its header and its frames.
pub struct LoadedAnimation {
    pub metadata: AnimatedCursorMetadata,
    pub frames: Seq<CursorFrameView>,
}

/// What loading an ANI file gives: the size field of the root is set right
/// where it has the known quirk, the container is decoded, and each frame is
/// decoded in the order of the file.
pub open spec fn spec_load(bytes: Seq<u8>) -> Result<LoadedAnimation, AnimatedCursorLoaderError> {
    match spec_decode(corrected(bytes)) {
        Err(error) => Err(AnimatedCursorLoaderError::DecodeError(error)),
        Ok(cursor) => match spec_animated_frames(cursor.frames, 0) {
            Err(error) => Err(error),
            Ok(frames) => Ok(LoadedAnimation { metadata: cursor.metadata, frames }),
        },
    }
}

/// An animated cursor, ready to be handed to a renderer.
#[derive(Debug)]
pub struct AnimatedCursor {
    /// The header of the ANI file that the cursor was loaded from, if it was
    /// loaded from one.
    pub metadata: Option<AnimatedCursorMetadata>,
    /// The images of the frames, in order.
    pub frames: Vec<RgbaImage>,
    /// The hotspot data.
    pub hotspots: CursorHotspots,
    /// The animation to play.
    pub animation: Animation,
}

impl AnimatedCursor {
    /// Returns the hotspot for the frame at the given index, or the default
    /// hotspot where the index has none of its own.
    pub fn hotspot_or_default(&self, index: usize) -> (hotspot: (u16, u16))
        ensures
            hotspot == self.hotspots.spec_get_or_default(index),
    {
        self.hotspots.get_or_default(index)
    }

    /// The cursor made of decoded frames: the header, the images, a table
    /// with the hotspot of each frame as an override for its index, and one
    /// clip of all frames in order, each shown for the time that the header's
    /// rate gives, played forwards in a loop.
    pub fn from_frames(
        metadata: AnimatedCursorMetadata,
        images: Vec<RgbaImage>,
        hotspots: &Vec<(u16, u16)>,
    ) -> (cursor: AnimatedCursor)
        ensures
            cursor.metadata == Some(metadata),
            cursor.frames@ == images@,
            cursor.hotspots.default == (0u16, 0u16),
            forall|i: usize| cursor.hotspots.overrides@.contains_key(i) <==> i < hotspots@.len(),
            forall|i: usize|
                i < hotspots@.len() ==> #[trigger] cursor.hotspots.overrides@[i] == hotspots@[i as int],
            cursor.animation.is_loop_of(
                images@.len(),
                frame_millis(metadata.frames_per_60_secs),
            ),
    {
        let count = images.len();
        let millis = metadata.duration_per_frame_millis();
        AnimatedCursor {
            metadata: Some(metadata),
            frames: images,
            hotspots: CursorHotspots::from_frames(hotspots),
            animation: Animation::loop_of(count, millis),
        }
    }

    /// Whether the cursor is what loading gives for the decoded file: the
    /// header, the frames with an explicit hotspot for each, and one clip of
    /// all frames in order, each shown for the time that the header's rate
    /// gives, played forwards in a loop.
    pub open spec fn holds(&self, loaded: LoadedAnimation) -> bool {
        &&& self.metadata == Some(loaded.metadata)
        &&& loaded.frames.len() == loaded.metadata.frame_count
        &&& holds_frames(self.frames@, self.hotspots, loaded.frames)
        &&& self.animation.is_loop_of(
            loaded.frames.len(),
            frame_millis(loaded.metadata.frames_per_60_secs),
        )
    }
}

/// A loader for animated cursors from the bytes of ANI files.
#[derive(Clone, Copy, Debug)]
pub struct AnimatedCursorLoader;

/// A buffer whose first chunk is not a `RIFF` chunk does not load: it gives
/// the error that carries the identifier found there.
pub proof fn lemma_root_that_is_not_riff_does_not_load(bytes: Seq<u8>)
    requires
        bytes.len() >= 8,
        id_at(bytes, 0) != spec_riff_id(),
    ensures
        spec_load(bytes) == Err::<LoadedAnimation, AnimatedCursorLoaderError>(
            AnimatedCursorLoaderError::DecodeError(
                DecodeError::UnsupportedRootChunkId(id_at(bytes, 0)),
            ),
        ),
{
    crate::ani::decoder::lemma_root_that_is_not_riff(bytes);
}

/// A buffer that, with its size field set right, starts with a `RIFF` chunk
/// in which a chunk at any level is cut short or declares a size that runs
/// past what is left for it does not load: it gives an I/O error.
pub proof fn lemma_unsound_framing_does_not_load(bytes: Seq<u8>)
    requires
        chunk_at(corrected(bytes), 0).is_some(),
        chunk_at(corrected(bytes), 0).unwrap().id == spec_riff_id(),
        list_error(corrected(bytes), chunk_at(corrected(bytes), 0).unwrap()).is_some(),
    ensures
        spec_load(bytes) == Err::<LoadedAnimation, AnimatedCursorLoaderError>(
            AnimatedCursorLoaderError::DecodeError(
                DecodeError::IoError(
                    list_error(corrected(bytes), chunk_at(corrected(bytes), 0).unwrap()).unwrap(),
                ),
            ),
        ),
{
    crate::ani::decoder::lemma_unsound_framing(corrected(bytes));
}

/// Every ANI file that loads gives exactly as many frames as its header
/// counts.
pub proof fn lemma_loaded_frame_count(bytes: Seq<u8>)
    requires
        spec_load(bytes).is_ok(),
    ensures
        spec_load(bytes).unwrap().frames.len() == spec_load(bytes).unwrap().metadata.frame_count,
{
    let cursor = spec_decode(corrected(bytes)).unwrap();
    crate::ani::decoder::lemma_frame_count(corrected(bytes));
    lemma_animated_frames_len(cursor.frames, 0);
}

/// The loader's error for a frame that could not be made of an entry.
fn frame_error(error: FrameError) -> (r: AnimatedCursorLoaderError)
    ensures
        r == spec_frame_error(error),
{
    match error {
        FrameError::InvalidResourceType(_) => AnimatedCursorLoaderError::InvalidResourceType,
        FrameError::Image(error) => AnimatedCursorLoaderError::Image(error),
        FrameError::ImageBufferError => AnimatedCursorLoaderError::ImageBufferError,
        FrameError::MissingHotspot => AnimatedCursorLoaderError::MissingHotspot,
    }
}

impl AnimatedCursorLoader {
    /// Decodes the directory of one frame chunk into a frame.
    pub fn decode_frame(frame: &IconDir) -> (r: Result<CursorFrame, AnimatedCursorLoaderError>)
        ensures
            match r {
                Ok(decoded) => spec_animated_frame(frame@) == Ok::<
                    CursorFrameView,
                    AnimatedCursorLoaderError,
                >(decoded@) && decoded.image.well_formed(),
                Err(error) => spec_animated_frame(frame@) == Err::<
                    CursorFrameView,
                    AnimatedCursorLoaderError,
                >(error),
            },
    {
        if frame.entries.len() != 1 {
            return Err(AnimatedCursorLoaderError::UnsupportedFrameEntryCount(frame.entries.len()));
        }
        match CursorFrame::decode(&frame.entries[0]) {
            Ok(decoded) => Ok(decoded),
            Err(error) => Err(frame_error(error)),
        }
    }

    /// Decodes the directories of the frame chunks, in order, into the images
    /// and the hotspots of the frames.
    pub fn decode_frames(frames: &Vec<IconDir>) -> (r: Result<
        (Vec<RgbaImage>, Vec<(u16, u16)>),
        AnimatedCursorLoaderError,
    >)
        ensures
            match r {
                Ok(decoded) => {
                    let expected = spec_animated_frames(
                        frames@.map_values(|frame: IconDir| frame@),
                        0,
                    );
                    &&& expected.is_ok()
                    &&& holds_images(decoded.0@, decoded.1@, expected.unwrap())
                },
                Err(error) => spec_animated_frames(
                    frames@.map_values(|frame: IconDir| frame@),
                    0,
                ) == Err::<Seq<CursorFrameView>, AnimatedCursorLoaderError>(error),
            },
    {
        let ghost directories = frames@.map_values(|frame: IconDir| frame@);
        let ghost mut done: Seq<CursorFrameView> = Seq::empty();
        let mut images: Vec<RgbaImage> = Vec::new();
        let mut hotspots: Vec<(u16, u16)> = Vec::new();
        let mut i: usize = 0;
        while i < frames.len()
            invariant
                directories == frames@.map_values(|frame: IconDir| frame@),
                i <= frames@.len(),
                holds_images(images@, hotspots@, done),
                match spec_animated_frames(directories, i as int) {
                    Ok(rest) => spec_animated_frames(directories, 0) == Ok::<
                        Seq<CursorFrameView>,
                        AnimatedCursorLoaderError,
                    >(done + rest),
                    Err(error) => spec_animated_frames(directories, 0) == Err::<
                        Seq<CursorFrameView>,
                        AnimatedCursorLoaderError,
                    >(error),
                },
            decreases frames@.len() - i,
        {
            assert(directories[i as int] == frames@[i as int]@);
            let frame = match AnimatedCursorLoader::decode_frame(&frames[i]) {
                Ok(frame) => frame,
                Err(error) => {
                    return Err(error);
                },
            };
            proof {
                match spec_animated_frames(directories, i + 1) {
                    Ok(rest) => {
                        assert(done + (seq![frame@] + rest) =~= done.push(frame@) + rest);
                    },
                    Err(_) => {},
                }
                done = done.push(frame@);
            }
            let CursorFrame { image, hotspot } = frame;
            images.push(image);
            hotspots.push(hotspot);
            i += 1;
        }
        proof {
            assert(done + Seq::<CursorFrameView>::empty() =~= done);
        }
        Ok((images, hotspots))
    }

    /// Loads an animated cursor from the bytes of an ANI file.
    ///
    /// The result holds the header, one image for each frame that the header
    /// counts, a hotspot override for each frame index, and a single clip that
    /// plays all frames in order, forwards and in a loop.
    pub fn load(&self, bytes: Vec<u8>) -> (r: Result<AnimatedCursor, AnimatedCursorLoaderError>)
        ensures
            match r {
                Ok(cursor) => spec_load(bytes@).is_ok() && cursor.holds(spec_load(bytes@).unwrap()),
                Err(error) => spec_load(bytes@) == Err::<LoadedAnimation, AnimatedCursorLoaderError>(
                    error,
                ),
            },
    {
        let mut buffer = bytes;
        correct_riff_size(&mut buffer);
        let decoder = Decoder::new(buffer);
        let cursor = match decoder.decode() {
            Ok(cursor) => cursor,
            Err(error) => {
                return Err(AnimatedCursorLoaderError::DecodeError(error));
            },
        };
        let (images, hotspots) = match AnimatedCursorLoader::decode_frames(&cursor.frames) {
            Ok(decoded) => decoded,
            Err(error) => {
                return Err(error);
            },
        };
        let loaded = AnimatedCursor::from_frames(cursor.metadata, images, &hotspots);
        proof {
            lemma_animated_frames_len(cursor@.frames, 0);
        }
        Ok(loaded)
    }

    /// The file extensions of the files that this loader reads.
    pub fn extensions(&self) -> (extensions: Vec<&'static str>)
        ensures
            extensions@.len() == 2,
            extensions@[0]@ == "ANI"@,
            extensions@[1]@ == "ani"@,
    {
        let mut extensions: Vec<&'static str> = Vec::new();
        extensions.push("ANI");
        extensions.push("ani");
        extensions
    }
}

} // verus!
