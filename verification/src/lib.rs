//! Decoding of legacy Windows cursor resources: static cursors, which are
//! directories of bitmaps, and animated cursors, which are stored in a RIFF
//! container.
//!
//! The decoders work on a byte buffer in memory and give plain values: for
//! each frame its RGBA pixels and its hotspot, and for an animated cursor the
//! order and the timing of its frames.
//!
//! - [`chunk`] reads the chunks of a RIFF container.
//! - [`directory`], [`icon`], [`bitmap`] and [`raster`] read a directory of
//!   icons or cursors and decode its entries.
//! - [`ani`] and [`cur`] decode and load animated and static cursors.
//! - [`frame`], [`hotspot`] and [`asset_image`] hold the frames, the hotspots
//!   and the images that loading gives.

pub mod ani;
pub mod asset_image;
pub mod bitmap;
pub mod bytes;
pub mod chunk;
pub mod cur;
pub mod directory;
pub mod frame;
pub mod hotspot;
pub mod icon;
pub mod raster;
