use cursor_kit::asset_image::{needs_processing, process_image, RgbaImage};

/// A 2x3 image whose pixel in column `x` of row `y` is `(10y + x, 1, 2, 3)`.
fn image() -> RgbaImage {
    let mut data = Vec::new();
    for y in 0..3u8 {
        for x in 0..2u8 {
            data.extend_from_slice(&[10 * y + x, 1, 2, 3]);
        }
    }
    RgbaImage::from_raw(2, 3, data).unwrap()
}

fn reds(image: &RgbaImage) -> Vec<u8> {
    image.data.chunks(4).map(|pixel| pixel[0]).collect()
}

#[test]
fn an_image_needs_four_bytes_per_pixel() {
    assert!(RgbaImage::from_raw(2, 3, vec![0; 24]).is_some());
    assert!(RgbaImage::from_raw(2, 3, vec![0; 23]).is_none());
    assert!(RgbaImage::from_raw(2, 3, vec![0; 25]).is_none());
    assert!(RgbaImage::from_raw(0, 3, Vec::new()).is_some());
    assert!(RgbaImage::from_raw(u32::MAX, u32::MAX, vec![0; 4]).is_none());
    let image = RgbaImage::from_raw(1, 1, vec![1, 2, 3, 4]).unwrap();
    assert_eq!((image.width(), image.height()), (1, 1));
    assert_eq!(image.data, vec![1, 2, 3, 4]);
}

#[test]
fn an_unchanged_copy_is_equal() {
    let copy = process_image(&image(), None, false, false);
    assert_eq!((copy.width, copy.height), (2, 3));
    assert_eq!(copy.data, image().data);
}

#[test]
fn flips_horizontally() {
    let flipped = process_image(&image(), None, true, false);
    assert_eq!(reds(&flipped), vec![1, 0, 11, 10, 21, 20]);
    assert_eq!(&flipped.data[..4], &[1, 1, 2, 3]);
}

#[test]
fn flips_vertically() {
    let flipped = process_image(&image(), None, false, true);
    assert_eq!(reds(&flipped), vec![20, 21, 10, 11, 0, 1]);
}

#[test]
fn flips_both_ways() {
    let flipped = process_image(&image(), None, true, true);
    assert_eq!(reds(&flipped), vec![21, 20, 11, 10, 1, 0]);
    let back = process_image(&flipped, None, true, true);
    assert_eq!(back.data, image().data);
}

#[test]
fn makes_the_key_colour_transparent() {
    let keyed = process_image(&image(), Some((11, 1, 2)), false, false);
    assert_eq!(&keyed.data[12..16], &[0, 0, 0, 0]);
    assert_eq!(&keyed.data[..12], &image().data[..12]);
    assert_eq!(&keyed.data[16..], &image().data[16..]);
    let untouched = process_image(&image(), Some((11, 1, 3)), false, false);
    assert_eq!(untouched.data, image().data);
}

#[test]
fn keys_and_flips_together() {
    let changed = process_image(&image(), Some((0, 1, 2)), true, true);
    assert_eq!(reds(&changed), vec![21, 20, 11, 10, 1, 0]);
    assert_eq!(&changed.data[20..], &[0, 0, 0, 0]);
    assert_eq!(&changed.data[16..20], &[1, 1, 2, 3]);
}

#[test]
fn an_empty_image_stays_empty() {
    let empty = RgbaImage::from_raw(0, 0, Vec::new()).unwrap();
    let copy = process_image(&empty, Some((0, 0, 0)), true, true);
    assert_eq!((copy.width, copy.height), (0, 0));
    assert!(copy.data.is_empty());
}

#[test]
fn an_image_is_processed_only_where_it_is_changed() {
    assert!(!needs_processing(None, false, false));
    assert!(needs_processing(Some((0, 0, 0)), false, false));
    assert!(needs_processing(None, true, false));
    assert!(needs_processing(None, false, true));
    assert!(needs_processing(Some((1, 2, 3)), true, true));
}
