use cursor_kit::ani::animation::{
    Animation, AnimationClip, AnimationDirection, AnimationDuration, AnimationRepeat,
    UnsupportedDuration,
};
use cursor_kit::ani::asset::{
    correct_riff_size, AnimatedCursor, AnimatedCursorLoader, AnimatedCursorLoaderError,
};
use cursor_kit::ani::decoder::{DecodeError, Decoder};
use cursor_kit::ani::AnimatedCursorMetadata;
use cursor_kit::bytes::IoErrorKind;
use cursor_kit::chunk::ChunkId;
use cursor_kit::icon::{IconDir, ImageError, ResourceType};

fn chunk(name: &[u8; 4], data: &[u8]) -> Vec<u8> {
    let mut out = name.to_vec();
    out.extend_from_slice(&(data.len() as u32).to_le_bytes());
    out.extend_from_slice(data);
    if data.len() % 2 == 1 {
        out.push(0);
    }
    out
}

fn list(name: &[u8; 4], kind: &[u8; 4], children: &[Vec<u8>]) -> Vec<u8> {
    let mut data = kind.to_vec();
    for child in children {
        data.extend_from_slice(child);
    }
    chunk(name, &data)
}

fn header(frame_count: u32, frames_per_60_secs: u32) -> Vec<u8> {
    let fields = [36, frame_count, frame_count, 0, 0, 0, 0, frames_per_60_secs, 1];
    let mut data = Vec::new();
    for field in fields {
        data.extend_from_slice(&u32::to_le_bytes(field));
    }
    chunk(b"anih", &data)
}

/// A 1x1 bitmap of 32 bits per pixel with the given colour.
fn bitmap(blue: u8, green: u8, red: u8, alpha: u8) -> Vec<u8> {
    let mut data = Vec::new();
    data.extend_from_slice(&40u32.to_le_bytes());
    data.extend_from_slice(&1u32.to_le_bytes());
    data.extend_from_slice(&2u32.to_le_bytes());
    data.extend_from_slice(&1u16.to_le_bytes());
    data.extend_from_slice(&32u16.to_le_bytes());
    data.extend_from_slice(&[0; 24]);
    data.extend_from_slice(&[blue, green, red, alpha]);
    data.extend_from_slice(&[0, 0, 0, 0]);
    data
}

fn directory(restype: u16, entries: &[((u16, u16), Vec<u8>)]) -> Vec<u8> {
    let mut out = Vec::new();
    out.extend_from_slice(&0u16.to_le_bytes());
    out.extend_from_slice(&restype.to_le_bytes());
    out.extend_from_slice(&(entries.len() as u16).to_le_bytes());
    let mut offset = 6 + 16 * entries.len() as u32;
    for (fields, data) in entries {
        out.extend_from_slice(&[1, 1, 0, 0]);
        out.extend_from_slice(&fields.0.to_le_bytes());
        out.extend_from_slice(&fields.1.to_le_bytes());
        out.extend_from_slice(&(data.len() as u32).to_le_bytes());
        out.extend_from_slice(&offset.to_le_bytes());
        offset += data.len() as u32;
    }
    for (_, data) in entries {
        out.extend_from_slice(data);
    }
    out
}

fn frame(index: u8) -> Vec<u8> {
    let cursor = directory(2, &[((index as u16, 10 + index as u16), bitmap(index, 2, 3, 255))]);
    chunk(b"icon", &cursor)
}

fn ani(frame_count: u32, frames_per_60_secs: u32, frames: &[Vec<u8>]) -> Vec<u8> {
    list(
        b"RIFF",
        b"ACON",
        &[header(frame_count, frames_per_60_secs), list(b"LIST", b"fram", frames)],
    )
}

fn four_frames() -> Vec<u8> {
    ani(4, 10, &[frame(0), frame(1), frame(2), frame(3)])
}

fn decode(bytes: Vec<u8>) -> Result<cursor_kit::ani::AnimatedCursor, DecodeError> {
    Decoder::new(bytes).decode()
}

fn load(bytes: Vec<u8>) -> Result<AnimatedCursor, AnimatedCursorLoaderError> {
    AnimatedCursorLoader.load(bytes)
}

#[test]
fn decodes_header_and_frames() {
    let cursor = decode(four_frames()).unwrap();
    assert_eq!(
        cursor.metadata,
        AnimatedCursorMetadata {
            header_size_bytes: 36,
            frame_count: 4,
            step_count: 4,
            width: 0,
            height: 0,
            bit_count: 0,
            plane_count: 0,
            frames_per_60_secs: 10,
            flags: 1,
        }
    );
    assert_eq!(cursor.frames.len(), 4);
    for (index, frame) in cursor.frames.iter().enumerate() {
        assert_eq!(frame.resource_type(), ResourceType::Cursor);
        assert_eq!(frame.entries().len(), 1);
        let entry = &frame.entries()[0];
        assert_eq!(entry.resource_type(), ResourceType::Cursor);
        assert_eq!(entry.cursor_hotspot(), Some((index as u16, 10 + index as u16)));
        let image = entry.decode().unwrap();
        assert_eq!(image.width, 1);
        assert_eq!(image.height, 1);
        assert_eq!(image.rgba_data, vec![3, 2, index as u8, 255]);
    }
}

#[test]
fn loads_four_frames_end_to_end() {
    let cursor = load(four_frames()).unwrap();
    assert_eq!(cursor.metadata.unwrap().frame_count, 4);
    assert_eq!(cursor.frames.len(), 4);
    assert_eq!(cursor.animation.clips.len(), 1);
    let clip = &cursor.animation.clips[0];
    assert_eq!(clip.atlas_indices, vec![0, 1, 2, 3]);
    assert_eq!(clip.duration, AnimationDuration::PerFrame(166));
    assert_eq!(clip.direction, AnimationDirection::Forwards);
    assert_eq!(cursor.animation.repeat, AnimationRepeat::Loop);
    assert_eq!(cursor.animation.direction, AnimationDirection::Forwards);
    let mut indices: Vec<usize> = cursor.hotspots.overrides.keys().copied().collect();
    indices.sort();
    assert_eq!(indices, vec![0, 1, 2, 3]);
    for index in 0..4 {
        assert_eq!(cursor.hotspot_or_default(index), (index as u16, 10 + index as u16));
        assert_eq!(cursor.frames[index].data, vec![3, 2, index as u8, 255]);
        assert_eq!((cursor.frames[index].width, cursor.frames[index].height), (1, 1));
    }
    assert_eq!(cursor.hotspot_or_default(4), (0, 0));
}

#[test]
fn the_number_of_frames_is_the_headers_frame_count() {
    for count in 0..5u8 {
        let frames: Vec<Vec<u8>> = (0..count).map(frame).collect();
        let cursor = load(ani(count as u32, 60, &frames)).unwrap();
        assert_eq!(cursor.frames.len(), count as usize);
        assert_eq!(cursor.hotspots.overrides.len(), count as usize);
        assert_eq!(cursor.animation.clips[0].atlas_indices.len(), count as usize);
    }
}

#[test]
fn a_frame_count_that_differs_is_refused() {
    let bytes = ani(3, 10, &[frame(0), frame(1)]);
    assert_eq!(
        decode(bytes.clone()).unwrap_err(),
        DecodeError::FrameCountMismatch { expected: 3, found: 2 }
    );
    assert_eq!(
        load(bytes).unwrap_err(),
        AnimatedCursorLoaderError::DecodeError(DecodeError::FrameCountMismatch {
            expected: 3,
            found: 2
        })
    );
    assert_eq!(
        decode(ani(0, 10, &[frame(0)])).unwrap_err(),
        DecodeError::FrameCountMismatch { expected: 0, found: 1 }
    );
}

#[test]
fn a_root_that_is_not_riff_is_refused() {
    let mut bytes = four_frames();
    bytes[..4].copy_from_slice(b"RIFX");
    assert_eq!(
        decode(bytes.clone()).unwrap_err(),
        DecodeError::UnsupportedRootChunkId(ChunkId::new(*b"RIFX"))
    );
    assert_eq!(
        load(bytes).unwrap_err(),
        AnimatedCursorLoaderError::DecodeError(DecodeError::UnsupportedRootChunkId(ChunkId::new(
            *b"RIFX"
        )))
    );
}

#[test]
fn a_root_of_another_type_is_refused() {
    let mut bytes = four_frames();
    bytes[8..12].copy_from_slice(b"WAVE");
    assert_eq!(
        decode(bytes).unwrap_err(),
        DecodeError::UnsupportedRootType(ChunkId::new(*b"WAVE"))
    );
}

#[test]
fn a_buffer_without_a_root_fails() {
    assert_eq!(decode(Vec::new()).unwrap_err(), DecodeError::IoError(IoErrorKind::UnexpectedEof));
    assert_eq!(
        decode(b"RIFF\x04\0\0\0".to_vec()).unwrap_err(),
        DecodeError::IoError(IoErrorKind::UnexpectedEof)
    );
}

#[test]
fn a_missing_header_is_refused() {
    let bytes = list(b"RIFF", b"ACON", &[list(b"LIST", b"fram", &[frame(0)])]);
    assert_eq!(decode(bytes).unwrap_err(), DecodeError::MissingHeaderChunk);
}

#[test]
fn a_short_header_fails() {
    let bytes = list(
        b"RIFF",
        b"ACON",
        &[chunk(b"anih", &[0; 35]), list(b"LIST", b"fram", &[])],
    );
    assert_eq!(decode(bytes).unwrap_err(), DecodeError::IoError(IoErrorKind::UnexpectedEof));
}

#[test]
fn missing_frames_are_refused() {
    let bytes = list(b"RIFF", b"ACON", &[header(0, 10)]);
    assert_eq!(decode(bytes).unwrap_err(), DecodeError::MissingFramesChunk);
}

#[test]
fn a_list_of_another_type_is_refused() {
    let bytes = list(
        b"RIFF",
        b"ACON",
        &[header(1, 10), list(b"LIST", b"INFO", &[frame(0)])],
    );
    assert_eq!(
        decode(bytes).unwrap_err(),
        DecodeError::UnsupportedFramesType(ChunkId::new(*b"INFO"))
    );
}

#[test]
fn a_frame_chunk_of_another_kind_is_refused() {
    let bytes = ani(2, 10, &[frame(0), chunk(b"junk", &[1, 2])]);
    assert_eq!(
        decode(bytes).unwrap_err(),
        DecodeError::UnsupportedFrameChunkId(ChunkId::new(*b"junk"))
    );
}

#[test]
fn a_frame_that_is_no_directory_fails() {
    let bytes = ani(1, 10, &[chunk(b"icon", &[0, 0, 9, 0, 0, 0])]);
    assert_eq!(decode(bytes).unwrap_err(), DecodeError::IoError(IoErrorKind::InvalidData));
    let bytes = ani(1, 10, &[chunk(b"icon", &[0, 0])]);
    assert_eq!(decode(bytes).unwrap_err(), DecodeError::IoError(IoErrorKind::UnexpectedEof));
}

#[test]
fn a_truncated_file_fails() {
    let mut bytes = four_frames();
    bytes.truncate(bytes.len() - 5);
    assert_eq!(decode(bytes).unwrap_err(), DecodeError::IoError(IoErrorKind::UnexpectedEof));
}

#[test]
fn a_frame_without_an_entry_is_refused() {
    let bytes = ani(1, 10, &[chunk(b"icon", &directory(2, &[]))]);
    assert_eq!(
        load(bytes).unwrap_err(),
        AnimatedCursorLoaderError::UnsupportedFrameEntryCount(0)
    );
}

#[test]
fn a_frame_with_two_entries_is_refused() {
    let two = directory(2, &[((0, 0), bitmap(1, 1, 1, 1)), ((0, 0), bitmap(2, 2, 2, 2))]);
    let bytes = ani(2, 10, &[frame(0), chunk(b"icon", &two)]);
    assert_eq!(
        load(bytes).unwrap_err(),
        AnimatedCursorLoaderError::UnsupportedFrameEntryCount(2)
    );
    let dir = IconDir::read(&two).unwrap();
    assert_eq!(
        AnimatedCursorLoader::decode_frame(&dir).unwrap_err(),
        AnimatedCursorLoaderError::UnsupportedFrameEntryCount(2)
    );
}

#[test]
fn a_frame_that_holds_an_icon_is_refused() {
    let icon = directory(1, &[((1, 32), bitmap(1, 1, 1, 1))]);
    let bytes = ani(1, 10, &[chunk(b"icon", &icon)]);
    assert_eq!(load(bytes).unwrap_err(), AnimatedCursorLoaderError::InvalidResourceType);
}

#[test]
fn a_frame_that_does_not_decode_is_refused() {
    let mut payload = bitmap(1, 1, 1, 1);
    payload[14] = 16;
    let bytes = ani(1, 10, &[chunk(b"icon", &directory(2, &[((0, 0), payload)]))]);
    assert_eq!(
        load(bytes).unwrap_err(),
        AnimatedCursorLoaderError::Image(ImageError::UnsupportedBitDepth(16))
    );
    let mut payload = bitmap(1, 1, 1, 1);
    payload.truncate(42);
    let bytes = ani(1, 10, &[chunk(b"icon", &directory(2, &[((0, 0), payload)]))]);
    assert_eq!(
        load(bytes).unwrap_err(),
        AnimatedCursorLoaderError::Image(ImageError::Io(IoErrorKind::UnexpectedEof))
    );
}

#[test]
fn a_size_field_that_holds_the_file_length_is_set_right() {
    let mut bytes = four_frames();
    let len = bytes.len() as u32;
    let sound = bytes.clone();
    bytes[4..8].copy_from_slice(&len.to_le_bytes());
    assert_eq!(
        decode(bytes.clone()).unwrap_err(),
        DecodeError::IoError(IoErrorKind::UnexpectedEof)
    );
    let cursor = load(bytes.clone()).unwrap();
    assert_eq!(cursor.frames.len(), 4);
    correct_riff_size(&mut bytes);
    assert_eq!(bytes, sound);
    assert_eq!(&bytes[4..8], &(len - 8).to_le_bytes());
}

#[test]
fn correcting_twice_changes_nothing_more() {
    let mut bytes = four_frames();
    let len = bytes.len() as u32;
    bytes[4..8].copy_from_slice(&len.to_le_bytes());
    correct_riff_size(&mut bytes);
    let once = bytes.clone();
    assert_ne!(u32::from_le_bytes([bytes[4], bytes[5], bytes[6], bytes[7]]), len);
    correct_riff_size(&mut bytes);
    assert_eq!(bytes, once);
}

#[test]
fn other_buffers_are_left_untouched() {
    for untouched in [
        Vec::new(),
        b"RIFF\x07\0\0".to_vec(),
        b"RIFX\x08\0\0\0".to_vec(),
        b"RIFF\x09\0\0\0".to_vec(),
        b"RIFF\0\0\0\0".to_vec(),
        four_frames(),
    ] {
        let mut bytes = untouched.clone();
        correct_riff_size(&mut bytes);
        assert_eq!(bytes, untouched);
    }
    let mut bytes = b"RIFF\x08\0\0\0".to_vec();
    correct_riff_size(&mut bytes);
    assert_eq!(bytes, b"RIFF\0\0\0\0".to_vec());
}

#[test]
fn the_time_of_a_frame_follows_the_rate() {
    let mut metadata = cursor_kit::ani::AnimatedCursorMetadata::read(&[0; 36]).unwrap();
    assert_eq!(metadata.duration_per_frame_millis(), 0);
    metadata.frames_per_60_secs = 10;
    assert_eq!(metadata.duration_per_frame_millis(), 166);
    metadata.frames_per_60_secs = 60;
    assert_eq!(metadata.duration_per_frame_millis(), 1000);
    metadata.frames_per_60_secs = 1;
    assert_eq!(metadata.duration_per_frame_millis(), 16);
    metadata.frames_per_60_secs = 257_698_037;
    assert_eq!(metadata.duration_per_frame_millis(), 4_294_967_283);
    metadata.frames_per_60_secs = 257_698_038;
    assert_eq!(metadata.duration_per_frame_millis(), 4);
    metadata.frames_per_60_secs = u32::MAX;
    assert_eq!(metadata.duration_per_frame_millis(), 2_863_311_514);
}

#[test]
fn reads_the_header_fields_in_order() {
    let mut data = Vec::new();
    for field in 1..=9u32 {
        data.extend_from_slice(&(field * 0x0101_0101).to_le_bytes());
    }
    data.push(0xee);
    let metadata = AnimatedCursorMetadata::read(&data).unwrap();
    assert_eq!(
        metadata,
        AnimatedCursorMetadata {
            header_size_bytes: 0x0101_0101,
            frame_count: 0x0202_0202,
            step_count: 0x0303_0303,
            width: 0x0404_0404,
            height: 0x0505_0505,
            bit_count: 0x0606_0606,
            plane_count: 0x0707_0707,
            frames_per_60_secs: 0x0808_0808,
            flags: 0x0909_0909,
        }
    );
    assert_eq!(AnimatedCursorMetadata::read(&data[..35]), Err(IoErrorKind::UnexpectedEof));
}

#[test]
fn a_duration_per_repetition_is_refused() {
    assert_eq!(AnimationDuration::PerFrame(166).per_frame_millis(), Ok(166));
    assert_eq!(
        AnimationDuration::PerRepetition(500).per_frame_millis(),
        Err(UnsupportedDuration { per_repetition: 500 })
    );
}

#[test]
fn builds_a_loop_of_all_frames() {
    let animation = Animation::loop_of(3, 40);
    assert_eq!(animation.clips.len(), 1);
    assert_eq!(animation.clips[0].atlas_indices, vec![0, 1, 2]);
    assert_eq!(animation.clips[0].duration, AnimationDuration::PerFrame(40));
    assert_eq!(animation.repeat, AnimationRepeat::default());
    assert_eq!(animation.direction, AnimationDirection::default());
    let clip = AnimationClip::all_frames(0, 1);
    assert!(clip.atlas_indices.is_empty());
}

#[test]
fn the_loader_names_its_extensions() {
    assert_eq!(AnimatedCursorLoader.extensions(), vec!["ANI", "ani"]);
}

#[test]
fn loads_frames_that_hold_png_files() {
    let png: [u8; 74] = [
        137, 80, 78, 71, 13, 10, 26, 10, 0, 0, 0, 13, 73, 72, 68, 82, 0, 0, 0, 2, 0, 0, 0, 1, 8,
        6, 0, 0, 0, 244, 34, 127, 138, 0, 0, 0, 17, 73, 68, 65, 84, 120, 156, 99, 224, 18, 145,
        211, 48, 178, 113, 11, 0, 0, 4, 185, 1, 105, 3, 157, 86, 55, 0, 0, 0, 0, 73, 69, 78, 68,
        174, 66, 96, 130,
    ];
    let cursor = directory(2, &[((1, 0), png.to_vec())]);
    let bytes = ani(2, 30, &[chunk(b"icon", &cursor), frame(7)]);
    let cursor = load(bytes).unwrap();
    assert_eq!(cursor.frames.len(), 2);
    assert_eq!((cursor.frames[0].width, cursor.frames[0].height), (2, 1));
    assert_eq!(cursor.frames[0].data, vec![10, 20, 30, 40, 50, 60, 70, 80]);
    assert_eq!(cursor.frames[1].data, vec![3, 2, 7, 255]);
    assert_eq!(cursor.hotspot_or_default(0), (1, 0));
    assert_eq!(cursor.hotspot_or_default(1), (7, 17));
    assert_eq!(cursor.animation.clips[0].duration, AnimationDuration::PerFrame(500));
}

#[test]
fn chunks_beside_the_header_and_the_frames_are_passed_over() {
    let bytes = list(
        b"RIFF",
        b"ACON",
        &[
            chunk(b"rate", &[1, 0, 0, 0]),
            header(1, 10),
            chunk(b"seq ", &[0, 0, 0]),
            list(b"LIST", b"fram", &[frame(3)]),
            chunk(b"tail", &[]),
        ],
    );
    let cursor = load(bytes).unwrap();
    assert_eq!(cursor.frames.len(), 1);
    assert_eq!(cursor.hotspot_or_default(0), (3, 13));
}

#[test]
fn a_last_chunk_that_declares_more_than_is_left_is_refused() {
    let mut tail = b"junk".to_vec();
    tail.extend_from_slice(&65535u32.to_le_bytes());
    let bytes = list(b"RIFF", b"ACON", &[header(0, 10), list(b"LIST", b"fram", &[]), tail]);
    assert_eq!(bytes.len(), 76);
    assert_eq!(
        decode(bytes.clone()).unwrap_err(),
        DecodeError::IoError(IoErrorKind::UnexpectedEof)
    );
    assert_eq!(
        load(bytes.clone()).unwrap_err(),
        AnimatedCursorLoaderError::DecodeError(DecodeError::IoError(IoErrorKind::UnexpectedEof))
    );
    let mut sound = bytes;
    sound[72..76].copy_from_slice(&0u32.to_le_bytes());
    assert_eq!(decode(sound).unwrap().frames.len(), 0);
}

#[test]
fn a_declared_size_past_the_buffer_is_refused_at_every_level() {
    let info = list(b"LIST", b"INFO", &[chunk(b"INAM", b"arrow"), chunk(b"IART", b"me")]);
    let sound = list(
        b"RIFF",
        b"ACON",
        &[info, header(1, 10), list(b"LIST", b"fram", &[frame(0)])],
    );
    assert_eq!(decode(sound.clone()).unwrap().frames.len(), 1);
    // The size of each chunk in turn is raised past what is left for it.
    let sizes = [4usize, 16, 28, 42, 52, 96, 108];
    for at in sizes {
        let mut bytes = sound.clone();
        bytes[at + 2] = 0x7f;
        assert_eq!(
            decode(bytes).unwrap_err(),
            DecodeError::IoError(IoErrorKind::UnexpectedEof),
            "size field at {}",
            at
        );
    }
    assert_eq!(&sound[24..28], b"INAM");
    assert_eq!(&sound[38..42], b"IART");
    assert_eq!(&sound[48..52], b"anih");
    assert_eq!(&sound[92..96], b"LIST");
    assert_eq!(&sound[104..108], b"icon");
}

#[test]
fn the_root_identifier_is_looked_at_before_the_sizes() {
    let mut bytes = four_frames();
    bytes[..4].copy_from_slice(b"RIFX");
    bytes[6] = 0x7f;
    assert_eq!(
        decode(bytes).unwrap_err(),
        DecodeError::UnsupportedRootChunkId(ChunkId::new(*b"RIFX"))
    );
    let mut bytes = four_frames();
    bytes[8..12].copy_from_slice(b"WAVE");
    bytes[6] = 0x7f;
    assert_eq!(decode(bytes).unwrap_err(), DecodeError::IoError(IoErrorKind::UnexpectedEof));
    for len in 0..12 {
        let bytes = four_frames()[..len].to_vec();
        assert_eq!(decode(bytes).unwrap_err(), DecodeError::IoError(IoErrorKind::UnexpectedEof));
    }
}

#[test]
fn a_list_of_another_type_before_the_frames_is_passed_over() {
    let info = list(b"LIST", b"INFO", &[chunk(b"INAM", b"arrow")]);
    let bytes = list(
        b"RIFF",
        b"ACON",
        &[
            header(2, 10),
            info.clone(),
            list(b"LIST", b"fram", &[frame(4), frame(5)]),
            list(b"LIST", b"fram", &[frame(6)]),
        ],
    );
    let cursor = decode(bytes.clone()).unwrap();
    assert_eq!(cursor.frames.len(), 2);
    assert_eq!(cursor.frames[0].entries()[0].cursor_hotspot(), Some((4, 14)));
    assert_eq!(cursor.frames[1].entries()[0].cursor_hotspot(), Some((5, 15)));
    let cursor = load(bytes).unwrap();
    assert_eq!(cursor.frames.len(), 2);
    assert_eq!(cursor.hotspot_or_default(1), (5, 15));

    let bytes = list(
        b"RIFF",
        b"ACON",
        &[info, list(b"LIST", b"fram", &[frame(1)]), header(1, 10)],
    );
    assert_eq!(decode(bytes).unwrap().frames.len(), 1);
}

#[test]
fn lists_without_one_of_frames_are_refused_with_the_type_of_the_first() {
    let bytes = list(
        b"RIFF",
        b"ACON",
        &[
            header(1, 10),
            list(b"LIST", b"INFO", &[]),
            chunk(b"rate", &[]),
            list(b"LIST", b"DATA", &[frame(0)]),
        ],
    );
    assert_eq!(
        decode(bytes).unwrap_err(),
        DecodeError::UnsupportedFramesType(ChunkId::new(*b"INFO"))
    );
    let bytes = list(b"RIFF", b"ACON", &[header(1, 10), chunk(b"rate", &[])]);
    assert_eq!(decode(bytes).unwrap_err(), DecodeError::MissingFramesChunk);
}

#[test]
fn a_list_without_room_for_its_type_is_refused() {
    let mut short = b"LIST".to_vec();
    short.extend_from_slice(&2u32.to_le_bytes());
    short.extend_from_slice(b"fr");
    let bytes = list(b"RIFF", b"ACON", &[header(0, 10), short]);
    assert_eq!(decode(bytes).unwrap_err(), DecodeError::IoError(IoErrorKind::UnexpectedEof));
}

#[test]
fn lists_inside_one_another_are_held_to_the_framing() {
    let mut inner = chunk(b"leaf", &[]);
    for _ in 0..300 {
        inner = list(b"LIST", b"nest", &[inner]);
    }
    let mut bytes = list(
        b"RIFF",
        b"ACON",
        &[header(1, 10), inner, list(b"LIST", b"fram", &[frame(2)])],
    );
    assert_eq!(decode(bytes.clone()).unwrap().frames.len(), 1);
    let leaf = 12 + 44 + 12 * 300;
    assert_eq!(&bytes[leaf..leaf + 4], b"leaf");
    bytes[leaf + 4] = 1;
    assert_eq!(decode(bytes).unwrap_err(), DecodeError::IoError(IoErrorKind::UnexpectedEof));
}
