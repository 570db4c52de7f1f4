use cursor_kit::bytes::IoErrorKind;
use cursor_kit::cur::asset::{StaticCursorLoader, StaticCursorLoaderError};
use cursor_kit::cur::decoder::{DecodeError, Decoder};
use cursor_kit::icon::{ImageError, ResourceType};

/// A 32x32 bitmap of 1 bit per pixel: black, with a white top-left pixel.
fn bitmap_32x32() -> Vec<u8> {
    let mut data = Vec::new();
    data.extend_from_slice(&40u32.to_le_bytes());
    data.extend_from_slice(&32u32.to_le_bytes());
    data.extend_from_slice(&64u32.to_le_bytes());
    data.extend_from_slice(&1u16.to_le_bytes());
    data.extend_from_slice(&1u16.to_le_bytes());
    data.extend_from_slice(&[0; 24]);
    data.extend_from_slice(&[0, 0, 0, 0, 255, 255, 255, 0]);
    data.extend_from_slice(&[0; 31 * 4]);
    data.extend_from_slice(&[0x80, 0, 0, 0]);
    data.extend_from_slice(&[0xff; 32 * 4]);
    data
}

fn directory(restype: u16, entries: &[((u16, u16), Vec<u8>)]) -> Vec<u8> {
    let mut out = Vec::new();
    out.extend_from_slice(&0u16.to_le_bytes());
    out.extend_from_slice(&restype.to_le_bytes());
    out.extend_from_slice(&(entries.len() as u16).to_le_bytes());
    let mut offset = 6 + 16 * entries.len() as u32;
    for (fields, data) in entries {
        out.extend_from_slice(&[32, 32, 2, 0]);
        out.extend_from_slice(&fields.0.to_le_bytes());
        out.extend_from_slice(&fields.1.to_le_bytes());
        out.extend_from_slice(&(data.len() as u32).to_le_bytes());
        out.extend_from_slice(&offset.to_le_bytes());
        offset += data.len() as u32;
    }
    for (_, data) in entries {
        out.extend_from_slice(data);
    }
    out
}

#[test]
fn decodes_a_cursor_file() {
    let bytes = directory(2, &[((10, 20), bitmap_32x32())]);
    let cursor = Decoder::new(bytes).decode().unwrap();

    assert_eq!(cursor.0.resource_type(), ResourceType::Cursor);
    assert_eq!(cursor.0.entries().len(), 1);

    for entry in cursor.0.entries().iter() {
        assert_eq!(entry.resource_type(), ResourceType::Cursor);

        let icon_image = entry.decode().unwrap();
        assert_eq!(icon_image.width, 32);
        assert_eq!(icon_image.height, 32);

        assert_eq!(icon_image.hotspot, Some((10, 20)));
        assert_eq!(icon_image.rgba_data.len(), 32 * 32 * 4);
        assert_eq!(&icon_image.rgba_data[..8], &[255, 255, 255, 0, 0, 0, 0, 0]);
    }
}

#[test]
fn a_file_of_another_type_does_not_decode() {
    let bytes = directory(7, &[((10, 20), bitmap_32x32())]);
    assert_eq!(
        Decoder::new(bytes).decode().unwrap_err(),
        DecodeError::IoError(IoErrorKind::InvalidData)
    );
    assert_eq!(
        Decoder::new(vec![0, 0, 2]).decode().unwrap_err(),
        DecodeError::IoError(IoErrorKind::UnexpectedEof)
    );
}

#[test]
fn loads_every_entry_of_a_cursor_file() {
    let bytes = directory(2, &[((10, 20), bitmap_32x32()), ((1, 2), bitmap_32x32())]);
    let cursor = StaticCursorLoader.load(bytes).unwrap();
    assert_eq!(cursor.frames.len(), 2);
    assert_eq!(cursor.hotspots.overrides.len(), 2);
    assert_eq!(cursor.hotspot_or_default(0), (10, 20));
    assert_eq!(cursor.hotspot_or_default(1), (1, 2));
    assert_eq!(cursor.hotspot_or_default(2), (0, 0));
    for image in &cursor.frames {
        assert_eq!((image.width, image.height), (32, 32));
        assert_eq!(image.data.len(), 32 * 32 * 4);
    }
}

#[test]
fn an_empty_cursor_file_loads_without_frames() {
    let cursor = StaticCursorLoader.load(directory(2, &[])).unwrap();
    assert!(cursor.frames.is_empty());
    assert!(cursor.hotspots.overrides.is_empty());
}

#[test]
fn an_icon_file_is_refused() {
    let bytes = directory(1, &[((1, 1), bitmap_32x32())]);
    assert_eq!(
        StaticCursorLoader.load(bytes).unwrap_err(),
        StaticCursorLoaderError::InvalidResourceType(ResourceType::Icon)
    );
}

#[test]
fn a_file_that_does_not_decode_is_refused() {
    assert_eq!(
        StaticCursorLoader.load(vec![0, 0, 2, 0]).unwrap_err(),
        StaticCursorLoaderError::DecodeError(DecodeError::IoError(IoErrorKind::UnexpectedEof))
    );
}

#[test]
fn an_image_that_does_not_decode_is_refused() {
    let mut payload = bitmap_32x32();
    payload.truncate(100);
    let bytes = directory(2, &[((0, 0), bitmap_32x32()), ((0, 0), payload)]);
    assert_eq!(
        StaticCursorLoader.load(bytes).unwrap_err(),
        StaticCursorLoaderError::Image(ImageError::Io(IoErrorKind::UnexpectedEof))
    );
}

#[test]
fn the_static_loader_names_its_extensions() {
    assert_eq!(StaticCursorLoader.extensions(), vec!["CUR", "cur"]);
}
