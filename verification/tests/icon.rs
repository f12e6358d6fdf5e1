use dns_checker::icon::{icon_or_empty, is_sound_png, load_icon, IconData, IconFault};

/// A PNG file of two pixels without opacity.
const TWO_COLOURS: [u8; 72] = [
    0x89, 0x50, 0x4e, 0x47, 0x0d, 0x0a, 0x1a, 0x0a, 0x00, 0x00, 0x00, 0x0d, 0x49, 0x48, 0x44, 0x52,
    0x00, 0x00, 0x00, 0x02, 0x00, 0x00, 0x00, 0x01, 0x08, 0x02, 0x00, 0x00, 0x00, 0x7b, 0x40, 0xe8,
    0xdd, 0x00, 0x00, 0x00, 0x0f, 0x49, 0x44, 0x41, 0x54, 0x78, 0xda, 0x63, 0xf8, 0xcf, 0xc0, 0xc0,
    0xd0, 0xc0, 0x0e, 0x00, 0x07, 0x08, 0x01, 0x87, 0x8b, 0xec, 0xe0, 0x66, 0x00, 0x00, 0x00, 0x00,
    0x49, 0x45, 0x4e, 0x44, 0xae, 0x42, 0x60, 0x82,
];

/// A PNG file of two grey pixels, one above the other.
const TWO_GREYS: [u8; 69] = [
    0x89, 0x50, 0x4e, 0x47, 0x0d, 0x0a, 0x1a, 0x0a, 0x00, 0x00, 0x00, 0x0d, 0x49, 0x48, 0x44, 0x52,
    0x00, 0x00, 0x00, 0x01, 0x00, 0x00, 0x00, 0x02, 0x08, 0x00, 0x00, 0x00, 0x00, 0xbc, 0xea, 0xe9,
    0xfb, 0x00, 0x00, 0x00, 0x0c, 0x49, 0x44, 0x41, 0x54, 0x78, 0xda, 0x63, 0xd0, 0x62, 0xf8, 0x0f,
    0x00, 0x01, 0x81, 0x01, 0x2a, 0x05, 0x3f, 0xd0, 0x98, 0x00, 0x00, 0x00, 0x00, 0x49, 0x45, 0x4e,
    0x44, 0xae, 0x42, 0x60, 0x82,
];

/// A PNG file of one pixel, which is the second colour of a palette of two.
const INDEXED: [u8; 85] = [
    0x89, 0x50, 0x4e, 0x47, 0x0d, 0x0a, 0x1a, 0x0a, 0x00, 0x00, 0x00, 0x0d, 0x49, 0x48, 0x44, 0x52,
    0x00, 0x00, 0x00, 0x01, 0x00, 0x00, 0x00, 0x01, 0x08, 0x03, 0x00, 0x00, 0x00, 0x28, 0xcb, 0x34,
    0xbb, 0x00, 0x00, 0x00, 0x06, 0x50, 0x4c, 0x54, 0x45, 0x01, 0x02, 0x03, 0x28, 0x32, 0x3c, 0xf2,
    0x0f, 0xa9, 0x4a, 0x00, 0x00, 0x00, 0x0a, 0x49, 0x44, 0x41, 0x54, 0x78, 0xda, 0x63, 0x60, 0x04,
    0x00, 0x00, 0x03, 0x00, 0x02, 0xe6, 0x7d, 0xa7, 0x67, 0x00, 0x00, 0x00, 0x00, 0x49, 0x45, 0x4e,
    0x44, 0xae, 0x42, 0x60, 0x82,
];

/// The same with a palette of one colour and a third.
const BROKEN_PALETTE: [u8; 83] = [
    0x89, 0x50, 0x4e, 0x47, 0x0d, 0x0a, 0x1a, 0x0a, 0x00, 0x00, 0x00, 0x0d, 0x49, 0x48, 0x44, 0x52,
    0x00, 0x00, 0x00, 0x01, 0x00, 0x00, 0x00, 0x01, 0x08, 0x03, 0x00, 0x00, 0x00, 0x28, 0xcb, 0x34,
    0xbb, 0x00, 0x00, 0x00, 0x04, 0x50, 0x4c, 0x54, 0x45, 0x01, 0x02, 0x03, 0x28, 0x11, 0x03, 0xe6,
    0x48, 0x00, 0x00, 0x00, 0x0a, 0x49, 0x44, 0x41, 0x54, 0x78, 0xda, 0x63, 0x60, 0x00, 0x00, 0x00,
    0x02, 0x00, 0x01, 0xe5, 0x27, 0xde, 0xfc, 0x00, 0x00, 0x00, 0x00, 0x49, 0x45, 0x4e, 0x44, 0xae,
    0x42, 0x60, 0x82,
];

/// A PNG file of one pixel that does not use its palette, which is no whole number of colours.
const UNUSED_PALETTE: [u8; 85] = [
    0x89, 0x50, 0x4e, 0x47, 0x0d, 0x0a, 0x1a, 0x0a, 0x00, 0x00, 0x00, 0x0d, 0x49, 0x48, 0x44, 0x52,
    0x00, 0x00, 0x00, 0x01, 0x00, 0x00, 0x00, 0x01, 0x08, 0x02, 0x00, 0x00, 0x00, 0x90, 0x77, 0x53,
    0xde, 0x00, 0x00, 0x00, 0x04, 0x50, 0x4c, 0x54, 0x45, 0x01, 0x02, 0x03, 0x28, 0x11, 0x03, 0xe6,
    0x48, 0x00, 0x00, 0x00, 0x0c, 0x49, 0x44, 0x41, 0x54, 0x78, 0xda, 0x63, 0x60, 0xe7, 0xe0, 0x04,
    0x00, 0x00, 0x32, 0x00, 0x19, 0xb1, 0x19, 0xce, 0xaa, 0x00, 0x00, 0x00, 0x00, 0x49, 0x45, 0x4e,
    0x44, 0xae, 0x42, 0x60, 0x82,
];

#[test]
fn icon_is_decoded_to_four_bytes_a_pixel() {
    let (icon, fault) = load_icon(&TWO_COLOURS);
    assert!(fault.is_none());
    assert_eq!((icon.width, icon.height), (2, 1));
    assert_eq!(icon.rgba, vec![255, 0, 0, 255, 0, 128, 7, 255]);
    let (icon, fault) = load_icon(&TWO_GREYS);
    assert!(fault.is_none());
    assert_eq!((icon.width, icon.height), (1, 2));
    assert_eq!(icon.rgba, vec![42, 42, 42, 255, 255, 255, 255, 255]);
}

#[test]
fn undecodable_file_gives_the_empty_icon() {
    for bytes in [&b""[..], &b"no image"[..], &TWO_COLOURS[..40]] {
        let (icon, fault) = load_icon(bytes);
        assert!(fault.is_some());
        assert_eq!((icon.width, icon.height), (0, 0));
        assert!(icon.rgba.is_empty());
    }
}

#[test]
fn missing_image_is_replaced_and_a_present_one_is_kept() {
    let icon = icon_or_empty(Some(IconData { width: 1, height: 1, rgba: vec![1, 2, 3, 4] }));
    assert_eq!((icon.width, icon.height, icon.rgba), (1, 1, vec![1, 2, 3, 4]));
    let icon = icon_or_empty(None);
    assert_eq!((icon.width, icon.height, icon.rgba), (0, 0, vec![]));
}

#[test]
fn palette_is_looked_up() {
    let (icon, fault) = load_icon(&INDEXED);
    assert!(fault.is_none());
    assert_eq!((icon.width, icon.height), (1, 1));
    assert_eq!(icon.rgba, vec![40, 50, 60, 255]);
}

#[test]
fn broken_palette_gives_the_empty_icon() {
    let (icon, fault) = load_icon(&BROKEN_PALETTE);
    assert!(matches!(fault, Some(IconFault::Unsound)));
    assert_eq!((icon.width, icon.height, icon.rgba), (0, 0, vec![]));
}

#[test]
fn unused_palette_does_not_matter() {
    let (icon, fault) = load_icon(&UNUSED_PALETTE);
    assert!(fault.is_none());
    assert_eq!(icon.rgba, vec![7, 8, 9, 255]);
}

#[test]
fn faults_are_told_apart() {
    assert!(matches!(load_icon(b"no image").1, Some(IconFault::Unsound)));
    assert!(matches!(load_icon(&TWO_COLOURS[..40]).1, Some(IconFault::Undecodable(_))));
}

#[test]
fn sound_files_are_told_apart() {
    assert!(is_sound_png(&TWO_COLOURS));
    assert!(is_sound_png(&TWO_GREYS));
    assert!(is_sound_png(&INDEXED));
    assert!(is_sound_png(&UNUSED_PALETTE));
    assert!(!is_sound_png(&BROKEN_PALETTE));
    assert!(!is_sound_png(&[]));
    assert!(!is_sound_png(&TWO_COLOURS[..7]));
    assert!(is_sound_png(&TWO_COLOURS[..8]));
    // The header of a broken palette is enough to tell, and without it there is nothing to tell.
    assert!(is_sound_png(&BROKEN_PALETTE[..40]));
    assert!(!is_sound_png(&BROKEN_PALETTE[..41]));
}
