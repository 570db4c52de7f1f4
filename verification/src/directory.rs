//! The layout of an icon or cursor directory, and the check that a directory
//! read from a buffer is the one that the buffer holds.
//!
//! A directory file starts with three 16-bit numbers: a reserved zero, the
//! resource type (1 for icons, 2 for cursors) and the number of entries. One
//! record of 16 bytes follows for each entry: width, height, colour count and
//! a reserved zero, one byte each; two 16-bit fields that hold the hotspot of a
//! cursor, and the planes and the depth of an icon; and the size and the
//! offset of the payload, 32 bits each. All numbers are little-endian.
//!
//! The width and the height of an entry are those of its image: a bitmap
//! payload gives them in its first twelve bytes, and where it does not, the
//! bytes of the record stand for them, with 0 read as 256.

use crate::bytes::{get_u16_le, get_u32_le, le_u16, le_u32};
use crate::icon::{
    is_png_data, IconDir, IconDirEntry, IconDirEntryView, IconDirView, ResourceType,
};
use vstd::prelude::*;

verus! {

/// The resource type that a tag in a directory stands for.
pub open spec fn resource_type_of(tag: u16) -> Option<ResourceType> {
    if tag == 1 {
        Some(ResourceType::Icon)
    } else if tag == 2 {
        Some(ResourceType::Cursor)
    } else {
        None
    }
}

/// Where the record of the entry `index` starts.
pub open spec fn record_start(index: int) -> int {
    6 + 16 * index
}

/// The width and the height that a payload gives where it is a bitmap: its
/// first twelve bytes must declare a header of 40 bytes, a width of at least
/// 1 and a doubled height that is even and at least 2, both within the range of
/// a signed 32-bit number. The height is half the doubled height.
pub open spec fn bmp_size(data: Seq<u8>) -> Option<(u32, u32)> {
    if data.len() >= 12 && le_u32(data, 0) == 40 && 1 <= le_u32(data, 4) <= i32::MAX && 2
        <= le_u32(data, 8) <= i32::MAX && le_u32(data, 8) % 2 == 0 {
        Some((le_u32(data, 4), (le_u32(data, 8) / 2) as u32))
    } else {
        None
    }
}

/// The width or the height that a byte of a record stands for: the number
/// itself, and 256 for zero.
pub open spec fn record_size(byte: u8) -> u32 {
    if byte == 0 {
        256
    } else {
        byte as u32
    }
}

/// The width and the height of an entry whose payload is no PNG file: those
/// that the payload gives as a bitmap, else those of the record `index`.
pub open spec fn entry_size(bytes: Seq<u8>, index: int, data: Seq<u8>) -> (u32, u32) {
    match bmp_size(data) {
        Some(size) => size,
        None => (
            record_size(bytes[record_start(index)]),
            record_size(bytes[record_start(index) + 1]),
        ),
    }
}

/// Whether an entry is what the record `index` of a directory of the given
/// type describes: the record is complete and its reserved byte zero, the
/// payload lies inside the buffer and is the payload of the entry, the two
/// fields that depend on the type are the hotspot of a cursor, or give the
/// depth of an icon, and the width and the height are those of the image
/// where the payload is no PNG file.
pub open spec fn entry_conforms(
    bytes: Seq<u8>,
    restype: ResourceType,
    index: int,
    entry: IconDirEntryView,
) -> bool {
    let at = record_start(index);
    let size = le_u32(bytes, at + 8);
    let offset = le_u32(bytes, at + 12);
    &&& at + 16 <= bytes.len()
    &&& bytes[at + 3] == 0
    &&& offset + size <= bytes.len()
    &&& entry.data == bytes.subrange(offset as int, offset + size)
    &&& entry.hotspot == (if restype == ResourceType::Cursor {
        Some((le_u16(bytes, at + 4), le_u16(bytes, at + 6)))
    } else {
        None
    })
    &&& entry.bits_per_pixel == (if restype == ResourceType::Cursor {
        0u16
    } else {
        le_u16(bytes, at + 6)
    })
    &&& !is_png_data(entry.data) ==> (entry.width, entry.height) == entry_size(
        bytes,
        index,
        entry.data,
    )
}

/// Whether a directory is the one that a buffer holds: the reserved field is
/// zero, the resource type is the one that the tag stands for, there are as
/// many entries as the buffer counts, and each is what its record describes.
/// Only the width and the height of an entry that holds a PNG file are left
/// open: they are those that the PNG file gives.
pub open spec fn directory_conforms(bytes: Seq<u8>, dir: IconDirView) -> bool {
    &&& bytes.len() >= 6
    &&& le_u16(bytes, 0) == 0
    &&& resource_type_of(le_u16(bytes, 2)) == Some(dir.restype)
    &&& dir.entries.len() == le_u16(bytes, 4)
    &&& forall|i: int|
        0 <= i < dir.entries.len() ==> entry_conforms(bytes, dir.restype, i, #[trigger] dir.entries[i])
}

/// Tells whether `data` is the part of `bytes` that starts at `offset`.
fn is_part(bytes: &[u8], offset: usize, data: &Vec<u8>) -> (r: bool)
    requires
        offset + data@.len() <= bytes@.len(),
    ensures
        r == (data@ == bytes@.subrange(offset as int, offset + data@.len())),
{
    let ghost part = bytes@.subrange(offset as int, offset + data@.len());
    let len = bytes.len();
    let mut k: usize = 0;
    while k < data.len()
        invariant
            k <= data@.len(),
            len == bytes@.len(),
            offset + data@.len() <= bytes@.len(),
            part == bytes@.subrange(offset as int, offset + data@.len()),
            forall|i: int| 0 <= i < k ==> data@[i] == part[i],
        decreases data@.len() - k,
    {
        if data[k] != bytes[offset + k] {
            assert(data@[k as int] != part[k as int]);
            return false;
        }
        k += 1;
    }
    assert(data@ =~= part);
    true
}

/// Reads the width and the height that a payload gives where it is a
/// bitmap.
pub fn read_bmp_size(data: &[u8]) -> (r: Option<(u32, u32)>)
    ensures
        r == bmp_size(data@),
{
    if data.len() < 12 {
        return None;
    }
    let size = get_u32_le(data, 0).unwrap();
    let width = get_u32_le(data, 4).unwrap();
    let doubled = get_u32_le(data, 8).unwrap();
    if size != 40 || width < 1 || width > 0x7fff_ffff || doubled < 2 || doubled > 0x7fff_ffff
        || doubled % 2 != 0 {
        return None;
    }
    Some((width, doubled / 2))
}

/// Tells whether an entry is what the record `index` of the directory
/// describes.
fn check_entry(bytes: &[u8], restype: ResourceType, index: usize, entry: &IconDirEntry) -> (r:
    bool)
    requires
        index < 65536,
    ensures
        r == entry_conforms(bytes@, restype, index as int, entry@),
{
    let at: usize = 6 + 16 * index;
    if bytes.len() < 16 || at > bytes.len() - 16 {
        return false;
    }
    let first = get_u16_le(bytes, at + 4).unwrap();
    let second = get_u16_le(bytes, at + 6).unwrap();
    let size = get_u32_le(bytes, at + 8).unwrap();
    let offset = get_u32_le(bytes, at + 12).unwrap();
    if bytes[at + 3] != 0 {
        return false;
    }
    if offset as u64 + size as u64 > bytes.len() as u64 {
        return false;
    }
    if entry.data.len() as u64 != size as u64 {
        assert(bytes@.subrange(offset as int, offset + size).len() == size);
        return false;
    }
    let fields_fit = match restype {
        ResourceType::Cursor => entry.bits_per_pixel == 0 && match entry.hotspot {
            Some(hotspot) => hotspot.0 == first && hotspot.1 == second,
            None => false,
        },
        ResourceType::Icon => entry.bits_per_pixel == second && entry.hotspot.is_none(),
    };
    if !fields_fit || !is_part(bytes, offset as usize, &entry.data) {
        return false;
    }
    if entry.is_png() {
        return true;
    }
    let size = match read_bmp_size(entry.data.as_slice()) {
        Some(size) => size,
        None => (
            if bytes[at] == 0 {
                256
            } else {
                bytes[at] as u32
            },
            if bytes[at + 1] == 0 {
                256
            } else {
                bytes[at + 1] as u32
            },
        ),
    };
    entry.width == size.0 && entry.height == size.1
}

/// Tells whether a directory is the one that a buffer holds.
pub fn check_directory(bytes: &[u8], dir: &IconDir) -> (r: bool)
    ensures
        r == directory_conforms(bytes@, dir@),
{
    if bytes.len() < 6 {
        return false;
    }
    let reserved = get_u16_le(bytes, 0).unwrap();
    let tag = get_u16_le(bytes, 2).unwrap();
    let count = get_u16_le(bytes, 4).unwrap();
    let tagged = match dir.restype {
        ResourceType::Icon => tag == 1,
        ResourceType::Cursor => tag == 2,
    };
    if reserved != 0 || !tagged || dir.entries.len() != count as usize {
        return false;
    }
    let mut i: usize = 0;
    while i < dir.entries.len()
        invariant
            i <= dir.entries@.len(),
            dir.entries@.len() == count,
            forall|k: int|
                0 <= k < i ==> entry_conforms(bytes@, dir.restype, k, #[trigger] dir@.entries[k]),
        decreases dir.entries@.len() - i,
    {
        assert(dir@.entries[i as int] == dir.entries@[i as int]@);
        if !check_entry(bytes, dir.restype, i, &dir.entries[i]) {
            return false;
        }
        i += 1;
    }
    true
}

} // verus!
