//! Animated cursors: the header of an ANI file and the frames that it lists.

pub mod animation;
pub mod asset;
pub mod decoder;

use crate::bytes::{le_u32, read_u32_le, IoErrorKind};
use crate::icon::{IconDir, IconDirView};
use vstd::prelude::*;

verus! {

/// The header of an animated cursor: nine 32-bit numbers, stored in this
/// order in 36 bytes.
#[derive(Clone, Copy, Debug, PartialEq, Eq, Structural)]
pub struct AnimatedCursorMetadata {
    /// The header size in bytes.
    pub header_size_bytes: u32,
    /// The number of frames in the animation.
    pub frame_count: u32,
    /// The number of steps in the animation. May include duplicate frames.
    pub step_count: u32,
    /// The frame width in pixels.
    pub width: u32,
    /// The frame height in pixels.
    pub height: u32,
    /// The number of bits per pixel.
    pub bit_count: u32,
    /// The number of planes.
    pub plane_count: u32,
    /// The number of frames per 60 seconds.
    pub frames_per_60_secs: u32,
    /// The animation flags.
    pub flags: u32,
}

/// The header held in the first 36 bytes of a header chunk's payload, if the
/// payload is that long.
pub open spec fn metadata_of(contents: Seq<u8>) -> Option<AnimatedCursorMetadata> {
    if contents.len() >= 36 {
        Some(
            AnimatedCursorMetadata {
                header_size_bytes: le_u32(contents, 0),
                frame_count: le_u32(contents, 4),
                step_count: le_u32(contents, 8),
                width: le_u32(contents, 12),
                height: le_u32(contents, 16),
                bit_count: le_u32(contents, 20),
                plane_count: le_u32(contents, 24),
                frames_per_60_secs: le_u32(contents, 28),
                flags: le_u32(contents, 32),
            },
        )
    } else {
        None
    }
}

/// The time for which one frame is shown, in milliseconds:
/// `1000 * frames_per_60_secs / 60`, rounded down and reduced to 32 bits.
pub open spec fn frame_millis(frames_per_60_secs: u32) -> u32 {
    ((1000 * frames_per_60_secs / 60) % 0x1_0000_0000) as u32
}

impl AnimatedCursorMetadata {
    /// Reads the header from the payload of a header chunk. Fails with
    /// `UnexpectedEof` where the payload is shorter than 36 bytes.
    pub fn read(contents: &[u8]) -> (r: Result<AnimatedCursorMetadata, IoErrorKind>)
        ensures
            r == match metadata_of(contents@) {
                Some(metadata) => Ok::<AnimatedCursorMetadata, IoErrorKind>(metadata),
                None => Err::<AnimatedCursorMetadata, IoErrorKind>(IoErrorKind::UnexpectedEof),
            },
    {
        let header_size_bytes = match read_u32_le(contents, 0) {
            Ok(value) => value,
            Err(kind) => {
                return Err(kind);
            },
        };
        let frame_count = match read_u32_le(contents, 4) {
            Ok(value) => value,
            Err(kind) => {
                return Err(kind);
            },
        };
        let step_count = match read_u32_le(contents, 8) {
            Ok(value) => value,
            Err(kind) => {
                return Err(kind);
            },
        };
        let width = match read_u32_le(contents, 12) {
            Ok(value) => value,
            Err(kind) => {
                return Err(kind);
            },
        };
        let height = match read_u32_le(contents, 16) {
            Ok(value) => value,
            Err(kind) => {
                return Err(kind);
            },
        };
        let bit_count = match read_u32_le(contents, 20) {
            Ok(value) => value,
            Err(kind) => {
                return Err(kind);
            },
        };
        let plane_count = match read_u32_le(contents, 24) {
            Ok(value) => value,
            Err(kind) => {
                return Err(kind);
            },
        };
        let frames_per_60_secs = match read_u32_le(contents, 28) {
            Ok(value) => value,
            Err(kind) => {
                return Err(kind);
            },
        };
        let flags = match read_u32_le(contents, 32) {
            Ok(value) => value,
            Err(kind) => {
                return Err(kind);
            },
        };
        Ok(
            AnimatedCursorMetadata {
                header_size_bytes,
                frame_count,
                step_count,
                width,
                height,
                bit_count,
                plane_count,
                frames_per_60_secs,
                flags,
            },
        )
    }

    /// The time for which one frame is shown, in milliseconds.
    pub fn duration_per_frame_millis(&self) -> (millis: u32)
        ensures
            millis == frame_millis(self.frames_per_60_secs),
    {
        let millis: u64 = 1000 * (self.frames_per_60_secs as u64) / 60;
        (millis % 0x1_0000_0000) as u32
    }
}

/// A decoded ANI file: the header and one directory for each frame.
#[derive(Debug)]
pub struct AnimatedCursor {
    pub metadata: AnimatedCursorMetadata,
    pub frames: Vec<IconDir>,
}

/// What a decoded ANI file holds, with its frames as a sequence.
pub struct AnimatedCursorView {
    pub metadata: AnimatedCursorMetadata,
    pub frames: Seq<IconDirView>,
}

impl View for AnimatedCursor {
    type V = AnimatedCursorView;

    open spec fn view(&self) -> AnimatedCursorView {
        AnimatedCursorView {
            metadata: self.metadata,
            frames: self.frames@.map_values(|frame: IconDir| frame@),
        }
    }
}

} // verus!
