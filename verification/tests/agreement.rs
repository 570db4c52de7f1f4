use cursor_kit::bitmap::{check_palette_fault, read_bmp_header};
use cursor_kit::bytes::IoErrorKind;
use cursor_kit::chunk::Chunk;
use cursor_kit::icon::{IconDir, ImageError, ResourceType};

/// A small generator of pseudo-random numbers, so that the cases are the
/// same in every run.
struct Numbers(u64);

impl Numbers {
    fn next(&mut self) -> u64 {
        self.0 ^= self.0 << 13;
        self.0 ^= self.0 >> 7;
        self.0 ^= self.0 << 17;
        self.0
    }

    fn below(&mut self, bound: u64) -> u64 {
        self.next() % bound
    }

    fn byte(&mut self) -> u8 {
        (self.next() >> 24) as u8
    }
}

fn kind_of(error: &std::io::Error) -> IoErrorKind {
    match error.kind() {
        std::io::ErrorKind::UnexpectedEof => IoErrorKind::UnexpectedEof,
        std::io::ErrorKind::InvalidData => IoErrorKind::InvalidData,
        _ => IoErrorKind::Other,
    }
}

fn chunk(name: &[u8; 4], data: &[u8]) -> Vec<u8> {
    let mut out = name.to_vec();
    out.extend_from_slice(&(data.len() as u32).to_le_bytes());
    out.extend_from_slice(data);
    if data.len() % 2 == 1 {
        out.push(0);
    }
    out
}

/// A container with a few children, some of whose bytes are then changed.
fn container(numbers: &mut Numbers) -> Vec<u8> {
    let mut data = b"TEST".to_vec();
    for _ in 0..numbers.below(5) {
        let len = numbers.below(7) as usize;
        let payload: Vec<u8> = (0..len).map(|_| numbers.byte()).collect();
        data.extend_from_slice(&chunk(b"kid ", &payload));
    }
    let mut bytes = chunk(b"RIFF", &data);
    for _ in 0..numbers.below(3) {
        let at = numbers.below(bytes.len() as u64) as usize;
        // Lengths stay small: only their lowest byte is changed.
        if at % 2 == 0 || bytes[at] != 0 {
            bytes[at] = numbers.below(40) as u8;
        }
    }
    let keep = bytes.len() - numbers.below(4) as usize;
    bytes.truncate(keep);
    bytes
}

#[test]
fn chunks_are_walked_as_the_chunk_reader_walks_them() {
    let mut numbers = Numbers(0x9e37_79b9_7f4a_7c15);
    let mut sound = 0;
    for _ in 0..3000 {
        let bytes = container(&mut numbers);
        let mut stream = std::io::Cursor::new(bytes.as_slice());
        let theirs = riff::Chunk::read(&mut stream, 0);
        let ours = Chunk::read(&bytes, 0);
        let (theirs, ours) = match (theirs, ours) {
            (Ok(theirs), Ok(ours)) => (theirs, ours),
            (Err(error), Err(kind)) => {
                assert_eq!(kind_of(&error), kind);
                continue;
            }
            _ => panic!("one reader gave a root, the other none: {:?}", bytes),
        };
        assert_eq!(
            (theirs.offset(), theirs.id().value, theirs.len()),
            (ours.offset(), ours.id().value(), ours.len())
        );
        // Where the walk finds every child inside its parent, it finds the
        // children that the chunk reader finds.
        let ours = match ours.read_children(&bytes) {
            Ok(ours) => ours,
            Err(kind) => {
                assert_eq!(kind, IoErrorKind::UnexpectedEof);
                continue;
            }
        };
        sound += 1;
        let walked: std::io::Result<Vec<riff::Chunk>> = theirs.iter(&mut stream).collect();
        let theirs = walked.unwrap();
        assert_eq!(theirs.len(), ours.len());
        for (theirs, ours) in theirs.iter().zip(ours.iter()) {
            assert_eq!(
                (theirs.offset(), theirs.id().value, theirs.len()),
                (ours.offset(), ours.id().value(), ours.len())
            );
            assert!(ours.fits(&bytes));
            let mut stream = std::io::Cursor::new(bytes.as_slice());
            assert_eq!(
                theirs.read_contents(&mut stream).unwrap(),
                ours.read_contents(&bytes).unwrap()
            );
            match (theirs.read_type(&mut stream), ours.read_type(&bytes)) {
                (Ok(theirs), Ok(ours)) => assert_eq!(theirs.value, ours.value()),
                (Err(error), Err(kind)) => assert_eq!(kind_of(&error), kind),
                _ => panic!("one reader gave a type, the other none: {:?}", bytes),
            }
        }
    }
    assert!(sound > 500);
}

/// A bitmap payload of a small size and a random depth, colour table and
/// raster, which may be cut short.
fn payload(numbers: &mut Numbers) -> Vec<u8> {
    let depths = [1u16, 4, 8, 24, 32, 16, 2];
    let bits_per_pixel = depths[numbers.below(depths.len() as u64) as usize];
    let width = 1 + numbers.below(9) as u32;
    let height = 1 + numbers.below(4) as u32;
    let capacity: u32 = match bits_per_pixel {
        1 => 2,
        4 => 16,
        8 => 256,
        _ => 0,
    };
    let colors_used = match numbers.below(4) {
        0 => 0,
        1 => capacity,
        2 => capacity + 1,
        _ => numbers.below(capacity as u64 + 1) as u32,
    };
    let held = if colors_used == 0 || colors_used > capacity { capacity } else { colors_used };
    let mut data = Vec::new();
    data.extend_from_slice(&40u32.to_le_bytes());
    data.extend_from_slice(&width.to_le_bytes());
    data.extend_from_slice(&(2 * height).to_le_bytes());
    data.extend_from_slice(&1u16.to_le_bytes());
    data.extend_from_slice(&bits_per_pixel.to_le_bytes());
    data.extend_from_slice(&[0; 16]);
    data.extend_from_slice(&colors_used.to_le_bytes());
    data.extend_from_slice(&0u32.to_le_bytes());
    for _ in 0..4 * held {
        data.push(numbers.byte());
    }
    let row = (width * bits_per_pixel as u32).div_ceil(8).div_ceil(4) * 4;
    let mask = width.div_ceil(8).div_ceil(4) * 4;
    let low = numbers.below(3) == 0;
    for _ in 0..height * row {
        let byte = numbers.byte();
        data.push(if low { byte & 0x11 & (numbers.byte() | 0x10) } else { byte });
    }
    for _ in 0..height * mask {
        data.push(numbers.byte());
    }
    if numbers.below(4) == 0 {
        let keep = numbers.below(data.len() as u64 + 1) as usize;
        data.truncate(keep);
    }
    data
}

fn directory(restype: u16, entries: &[((u16, u16), Vec<u8>)]) -> Vec<u8> {
    let mut out = Vec::new();
    out.extend_from_slice(&0u16.to_le_bytes());
    out.extend_from_slice(&restype.to_le_bytes());
    out.extend_from_slice(&(entries.len() as u16).to_le_bytes());
    let mut offset = 6 + 16 * entries.len() as u32;
    for (fields, data) in entries {
        out.extend_from_slice(&[3, 3, 0, 0]);
        out.extend_from_slice(&fields.0.to_le_bytes());
        out.extend_from_slice(&fields.1.to_le_bytes());
        out.extend_from_slice(&(data.len() as u32).to_le_bytes());
        out.extend_from_slice(&offset.to_le_bytes());
        offset += data.len() as u32;
    }
    for (_, data) in entries {
        out.extend_from_slice(data);
    }
    out
}

#[test]
fn entries_decode_as_the_directory_reader_decodes_them() {
    let mut numbers = Numbers(0x2545_f491_4f6c_dd1d);
    let mut decoded = 0;
    let mut refused = 0;
    for _ in 0..4000 {
        let restype = 1 + numbers.below(2) as u16;
        let count = numbers.below(3) as usize;
        let entries: Vec<((u16, u16), Vec<u8>)> = (0..count)
            .map(|_| ((numbers.below(40) as u16, numbers.below(40) as u16), payload(&mut numbers)))
            .collect();
        let bytes = directory(restype, &entries);
        let theirs = ico::IconDir::read(std::io::Cursor::new(bytes.as_slice())).unwrap();
        let ours = IconDir::read(&bytes).unwrap();
        assert_eq!(ours.entries().len(), count);
        assert_eq!(theirs.entries().len(), count);
        for (index, (theirs, ours)) in theirs.entries().iter().zip(ours.entries()).enumerate() {
            assert_eq!(ours.data(), &entries[index].1);
            assert_eq!(ours.cursor_hotspot(), theirs.cursor_hotspot());
            assert_eq!((ours.width(), ours.height()), (theirs.width(), theirs.height()));
            assert_eq!(
                ours.resource_type() == ResourceType::Cursor,
                theirs.resource_type() == ico::ResourceType::Cursor
            );
            let ours_image = ours.decode();
            let header = read_bmp_header(ours.data());
            if let Some(header) = header {
                if !header.has_supported_depth() {
                    assert_eq!(
                        ours_image.unwrap_err(),
                        ImageError::UnsupportedBitDepth(header.bits_per_pixel)
                    );
                    refused += 1;
                    continue;
                }
            }
            if check_palette_fault(ours.data()) {
                assert_eq!(ours_image.unwrap_err(), ImageError::PaletteIndexOutOfRange);
                refused += 1;
                continue;
            }
            match (theirs.decode(), ours_image) {
                (Ok(theirs), Ok(ours)) => {
                    assert_eq!((theirs.width(), theirs.height()), (ours.width, ours.height));
                    assert_eq!(theirs.cursor_hotspot(), ours.hotspot);
                    assert_eq!(theirs.rgba_data(), ours.rgba_data.as_slice());
                    assert_eq!(
                        ours.rgba_data.len(),
                        4 * ours.width as usize * ours.height as usize
                    );
                    decoded += 1;
                }
                (Err(error), Err(ours)) => assert_eq!(ours, ImageError::Io(kind_of(&error))),
                _ => panic!("one decoder gave an image, the other none: {:?}", ours.data()),
            }
        }
    }
    assert!(decoded > 500);
    assert!(refused > 100);
}
