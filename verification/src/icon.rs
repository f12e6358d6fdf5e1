//! The icon of the window, out of the bytes of an image file.

use vstd::prelude::*;

verus! {

/// The error of the `image` crate. Nothing is known of it but that it is one.
#[verifier::external_type_specification]
#[verifier::external_body]
pub struct ExImageError(image::ImageError);

/// An icon: its pixels row by row, four bytes each, for red, green, blue and opacity.
#[derive(Debug)]
pub struct IconData {
    pub width: u32,
    pub height: u32,
    pub rgba: Vec<u8>,
}

/// An icon as a mathematical value.
#[verifier::ext_equal]
pub struct IconView {
    pub width: u32,
    pub height: u32,
    pub rgba: Seq<u8>,
}

impl View for IconData {
    type V = IconView;

    open spec fn view(&self) -> IconView {
        IconView { width: self.width, height: self.height, rgba: self.rgba@ }
    }
}

/// The icon that shows nothing.
pub open spec fn empty_icon() -> IconView {
    IconView { width: 0, height: 0, rgba: seq![] }
}

impl Default for IconData {
    /// The icon that shows nothing.
    fn default() -> (icon: Self)
        ensures
            icon@ == empty_icon(),
    {
        let icon = IconData { width: 0, height: 0, rgba: Vec::new() };
        assert(icon@ =~= empty_icon());
        icon
    }
}

// ---------------------------------------------------------------------------------------------
// PNG files
// ---------------------------------------------------------------------------------------------

/// The type of a chunk of image data, `IDAT`, as a number.
pub const IDAT: u32 = 0x4944_4154;

/// The type of a palette chunk, `PLTE`, as a number.
pub const PLTE: u32 = 0x504C_5445;

/// Where the first chunk of a PNG file starts: behind the signature.
pub const FIRST_CHUNK: usize = 8;

/// Where a PNG file says what its pixels consist of.
pub const COLOUR_TYPE: usize = 25;

/// The colour type of pixels that are indices into a palette.
pub const INDEXED: u8 = 3;

/// The eight bytes that a PNG file starts with.
pub open spec fn png_signature() -> Seq<u8> {
    seq![0x89, 0x50, 0x4E, 0x47, 0x0D, 0x0A, 0x1A, 0x0A]
}

/// The number whose four bytes, most significant first, stand in `bytes` at `at`.
pub open spec fn number_at(bytes: Seq<u8>, at: int) -> int {
    0x100_0000 * bytes[at] + 0x1_0000 * bytes[at + 1] + 0x100 * bytes[at + 2] + bytes[at + 3]
}

/// Whether every palette from the chunk at `at` on, up to the image data, is a whole number of
/// colours, of three bytes each. A chunk is the length of its data, its type, the data and a
/// checksum.
pub open spec fn palettes_are_whole(bytes: Seq<u8>, at: int) -> bool
    decreases bytes.len() - at,
{
    if at < 0 || at + 8 > bytes.len() {
        true
    } else {
        let len = number_at(bytes, at);
        let kind = number_at(bytes, at + 4);
        let next = at + 12 + len;
        kind == IDAT || ((kind == PLTE ==> len % 3 == 0) && (next >= bytes.len()
            || palettes_are_whole(bytes, next)))
    }
}

/// Whether `bytes` start like a PNG file, and one whose palette, if its pixels are indices into it,
/// is a whole number of colours.
pub open spec fn sound_png(bytes: Seq<u8>) -> bool {
    &&& bytes.len() >= FIRST_CHUNK
    &&& bytes.take(FIRST_CHUNK as int) == png_signature()
    &&& bytes.len() > COLOUR_TYPE && bytes[COLOUR_TYPE as int] == INDEXED ==> palettes_are_whole(
        bytes,
        FIRST_CHUNK as int,
    )
}

/// Reads the number in the four bytes of `bytes` at `at`.
fn read_number(bytes: &[u8], at: usize) -> (n: u32)
    requires
        at + 4 <= bytes@.len(),
    ensures
        n == number_at(bytes@, at as int),
{
    0x100_0000 * bytes[at] as u32 + 0x1_0000 * bytes[at + 1] as u32 + 0x100 * bytes[at + 2] as u32
        + bytes[at + 3] as u32
}

/// Tells whether every palette up to the image data is a whole number of colours.
fn has_whole_palettes(bytes: &[u8]) -> (whole: bool)
    ensures
        whole == palettes_are_whole(bytes@, FIRST_CHUNK as int),
{
    let mut at: usize = FIRST_CHUNK;
    while at < bytes.len() && bytes.len() - at >= 8
        invariant
            palettes_are_whole(bytes@, at as int) == palettes_are_whole(
                bytes@,
                FIRST_CHUNK as int,
            ),
        decreases bytes@.len() - at,
    {
        let len: u32 = read_number(bytes, at);
        let kind: u32 = read_number(bytes, at + 4);
        if kind == IDAT {
            return true;
        }
        if kind == PLTE && len % 3 != 0 {
            return false;
        }
        let left: usize = bytes.len() - at;
        if left <= 12 || left - 12 <= len as usize {
            return true;
        }
        at += 12 + len as usize;
    }
    true
}

/// Tells whether `bytes` start like a PNG file, and one whose palette, if its pixels are indices
/// into it, is a whole number of colours.
pub fn is_sound_png(bytes: &[u8]) -> (sound: bool)
    ensures
        sound == sound_png(bytes@),
{
    if bytes.len() < FIRST_CHUNK {
        return false;
    }
    let signed: bool = bytes[0] == 0x89 && bytes[1] == 0x50 && bytes[2] == 0x4E && bytes[3] == 0x47
        && bytes[4] == 0x0D && bytes[5] == 0x0A && bytes[6] == 0x1A && bytes[7] == 0x0A;
    proof {
        let start = bytes@.take(FIRST_CHUNK as int);
        assert(start[0] == bytes@[0] && start[1] == bytes@[1] && start[2] == bytes@[2]);
        assert(start[3] == bytes@[3] && start[4] == bytes@[4] && start[5] == bytes@[5]);
        assert(start[6] == bytes@[6] && start[7] == bytes@[7]);
        if signed {
            assert(start =~= png_signature());
        }
    }
    signed && (bytes.len() <= COLOUR_TYPE || bytes[COLOUR_TYPE] != INDEXED || has_whole_palettes(
        bytes,
    ))
}

// ---------------------------------------------------------------------------------------------
// Icons
// ---------------------------------------------------------------------------------------------

/// The width, the height and the pixels of the image whose file consists of these bytes, as the
/// `image` crate decodes it; `None` if it cannot.
pub uninterp spec fn decoded_rgba(bytes: Seq<u8>) -> Option<(u32, u32, Seq<u8>)>;

/// Decodes an image file with `image::load_from_memory` and turns it into pixels of four bytes each
/// with `to_rgba8`. What is claimed of the two is that the outcome is a function of the bytes alone
/// (whether there is an image, its width and height, and its pixels), and that there are exactly four
/// bytes for each pixel. Of an image of indices the decoder takes the palette apart three bytes at a
/// time, and panics if there are one or two left over; such files are left out, and so are those of
/// other formats, which other decoders would read.
#[verifier::external_body]
fn decode(bytes: &[u8]) -> (decoded: Result<IconData, image::ImageError>)
    requires
        sound_png(bytes@),
    ensures
        match decoded {
            Ok(icon) => {
                &&& decoded_rgba(bytes@) == Some((icon.width, icon.height, icon.rgba@))
                &&& icon.rgba@.len() == 4 * icon.width * icon.height
            },
            Err(_) => decoded_rgba(bytes@) is None,
        },
{
    let pixels = image::load_from_memory(bytes)?.to_rgba8();
    Ok(IconData { width: pixels.width(), height: pixels.height(), rgba: pixels.into_raw() })
}

/// The icon for an image file that was decoded: the image, or nothing if there is none.
pub fn icon_or_empty(decoded: Option<IconData>) -> (icon: IconData)
    ensures
        icon@ == (match decoded {
            Some(image) => image@,
            None => empty_icon(),
        }),
{
    match decoded {
        Some(image) => image,
        None => IconData::default(),
    }
}

/// Why there is no icon in a file.
#[derive(Debug)]
pub enum IconFault {
    /// The file is no PNG file, or its palette is no whole number of colours.
    Unsound,
    /// The file cannot be decoded.
    Undecodable(image::ImageError),
}

/// The width, the height and the pixels of the icon in the file that consists of `bytes`, if there is
/// one.
pub open spec fn icon_in(bytes: Seq<u8>) -> Option<(u32, u32, Seq<u8>)> {
    if sound_png(bytes) {
        decoded_rgba(bytes)
    } else {
        None
    }
}

/// The icon in the PNG file that consists of `bytes`. A file without one gives the icon that shows
/// nothing, and beside it the reason: the window does without.
pub fn load_icon(bytes: &[u8]) -> (loaded: (IconData, Option<IconFault>))
    ensures
        loaded.0@ == (match icon_in(bytes@) {
            Some((width, height, rgba)) => IconView { width, height, rgba },
            None => empty_icon(),
        }),
        loaded.0.rgba@.len() == 4 * loaded.0.width * loaded.0.height,
        match loaded.1 {
            None => icon_in(bytes@) is Some,
            Some(IconFault::Unsound) => !sound_png(bytes@),
            Some(IconFault::Undecodable(_)) => sound_png(bytes@) && decoded_rgba(bytes@) is None,
        },
{
    if !is_sound_png(bytes) {
        return (icon_or_empty(None), Some(IconFault::Unsound));
    }
    match decode(bytes) {
        Ok(image) => (icon_or_empty(Some(image)), None),
        Err(e) => (icon_or_empty(None), Some(IconFault::Undecodable(e))),
    }
}

} // verus!
