//! What holds of the files that icons are read from, told over the chunks that were written into
//! them.

use vstd::prelude::*;

use crate::icon;
use crate::icon::{IconData, IconView};

verus! {

/// A chunk of a PNG file.
pub struct Chunk {
    pub kind: Seq<u8>,
    pub data: Seq<u8>,
    pub checksum: Seq<u8>,
}

/// Whether a chunk can be written.
pub open spec fn sound_chunk(chunk: Chunk) -> bool {
    chunk.kind.len() == 4 && chunk.checksum.len() == 4 && chunk.data.len() < 0x1_0000_0000
}

/// A chunk in a file: the length of its data in four bytes, the most significant one first; its
/// kind; the data; the checksum.
pub open spec fn chunk_bytes(chunk: Chunk) -> Seq<u8> {
    let len = chunk.data.len();
    seq![
        (len / 0x100_0000) as u8,
        ((len / 0x1_0000) % 0x100) as u8,
        ((len / 0x100) % 0x100) as u8,
        (len % 0x100) as u8,
    ] + chunk.kind + chunk.data + chunk.checksum
}

/// Chunks in a file.
pub open spec fn chunks_bytes(chunks: Seq<Chunk>) -> Seq<u8>
    decreases chunks.len(),
{
    if chunks.len() == 0 {
        seq![]
    } else {
        chunk_bytes(chunks[0]) + chunks_bytes(chunks.drop_first())
    }
}

/// Whether the palettes (`PLTE`) in front of the first chunk of image data (`IDAT`) hold whole
/// colours, of three bytes each.
pub open spec fn whole_colours(chunks: Seq<Chunk>) -> bool
    decreases chunks.len(),
{
    if chunks.len() == 0 || chunks[0].kind == seq![0x49u8, 0x44, 0x41, 0x54] {
        true
    } else {
        &&& chunks[0].kind == seq![0x50u8, 0x4C, 0x54, 0x45] ==> chunks[0].data.len() % 3 == 0
        &&& whole_colours(chunks.drop_first())
    }
}

/// The number that the four bytes of a kind make up.
spec fn kind_number(kind: Seq<u8>) -> int {
    0x100_0000 * kind[0] + 0x1_0000 * kind[1] + 0x100 * kind[2] + kind[3]
}

/// A length reads back from its four bytes.
proof fn lemma_length_read(len: int)
    requires
        0 <= len < 0x1_0000_0000,
    ensures
        0x100_0000 * ((len / 0x100_0000) as u8) + 0x1_0000 * (((len / 0x1_0000) % 0x100) as u8)
            + 0x100 * (((len / 0x100) % 0x100) as u8) + ((len % 0x100) as u8) == len,
{
    let high = len / 0x1_0000;
    let low = len % 0x1_0000;
    assert(high / 0x100 == len / 0x100_0000);
    assert((len / 0x100) % 0x100 == low / 0x100);
}

/// The kinds of chunks that matter are told apart from all others by their numbers.
proof fn lemma_kind_read(kind: Seq<u8>)
    requires
        kind.len() == 4,
    ensures
        kind_number(kind) == 0x4944_4154 <==> kind == seq![0x49u8, 0x44, 0x41, 0x54],
        kind_number(kind) == 0x504C_5445 <==> kind == seq![0x50u8, 0x4C, 0x54, 0x45],
{
    if kind_number(kind) == 0x4944_4154 {
        assert(kind[0] == 0x49);
        assert(kind[1] == 0x44);
        assert(kind[2] == 0x41);
        assert(kind =~= seq![0x49u8, 0x44, 0x41, 0x54]);
    }
    if kind_number(kind) == 0x504C_5445 {
        assert(kind[0] == 0x50);
        assert(kind[1] == 0x4C);
        assert(kind[2] == 0x54);
        assert(kind =~= seq![0x50u8, 0x4C, 0x54, 0x45]);
    }
}

/// The palettes of a file are found whole exactly if those that were written into it, in front of
/// the image data, are.
pub proof fn law_palettes_by_chunks(before: Seq<u8>, chunks: Seq<Chunk>)
    requires
        forall|i: int| 0 <= i < chunks.len() ==> sound_chunk(#[trigger] chunks[i]),
    ensures
        icon::palettes_are_whole(before + chunks_bytes(chunks), before.len() as int)
            == whole_colours(chunks),
    decreases chunks.len(),
{
    let bytes = before + chunks_bytes(chunks);
    if chunks.len() > 0 {
        let chunk = chunks[0];
        let others = chunks.drop_first();
        assert(sound_chunk(chunks[0]));
        assert forall|i: int| 0 <= i < others.len() implies sound_chunk(#[trigger] others[i]) by {
            assert(others[i] == chunks[i + 1]);
        }
        let at = before.len() as int;
        let len = chunk.data.len() as int;
        let next = before + chunk_bytes(chunk);
        assert(bytes =~= next + chunks_bytes(others));
        law_palettes_by_chunks(next, others);
        let own = chunk_bytes(chunk);
        assert(forall|i: int| 0 <= i < 8 ==> bytes[at + i] == #[trigger] own[i]);
        assert(own[0] == (len / 0x100_0000) as u8 && own[1] == ((len / 0x1_0000) % 0x100) as u8);
        assert(own[2] == ((len / 0x100) % 0x100) as u8 && own[3] == (len % 0x100) as u8);
        assert(own[4] == chunk.kind[0] && own[5] == chunk.kind[1]);
        assert(own[6] == chunk.kind[2] && own[7] == chunk.kind[3]);
        lemma_length_read(len);
        assert(icon::number_at(bytes, at) == len);
        lemma_kind_read(chunk.kind);
        assert(icon::number_at(bytes, at + 4) == kind_number(chunk.kind));
        if at + 12 + len >= bytes.len() {
            if others.len() > 0 {
                assert(chunk_bytes(others[0]).len() >= 12);
            }
        }
    }
}

/// A file is sound exactly if it starts with the signature of PNG, and, if its pixels are said to be
/// indices (a 3 in the twenty-sixth byte), its palettes are whole.
pub proof fn law_sound_file(bytes: Seq<u8>)
    ensures
        icon::sound_png(bytes) <==> {
            &&& bytes.len() >= 8
            &&& bytes[0] == 0x89
            &&& bytes[1] == 0x50
            &&& bytes[2] == 0x4E
            &&& bytes[3] == 0x47
            &&& bytes[4] == 0x0D
            &&& bytes[5] == 0x0A
            &&& bytes[6] == 0x1A
            &&& bytes[7] == 0x0A
            &&& bytes.len() >= 26 && bytes[25] == 3 ==> icon::palettes_are_whole(bytes, 8)
        },
{
    let start = bytes.take(8);
    let signature = seq![0x89u8, 0x50, 0x4E, 0x47, 0x0D, 0x0A, 0x1A, 0x0A];
    assert(icon::png_signature() =~= signature);
    if bytes.len() >= 8 {
        assert(forall|i: int| 0 <= i < 8 ==> #[trigger] start[i] == bytes[i]);
        if start == signature {
            assert(start[0] == 0x89 && start[1] == 0x50 && start[2] == 0x4E && start[3] == 0x47);
            assert(start[4] == 0x0D && start[5] == 0x0A && start[6] == 0x1A && start[7] == 0x0A);
        }
        if bytes[0] == 0x89 && bytes[1] == 0x50 && bytes[2] == 0x4E && bytes[3] == 0x47 && bytes[4]
            == 0x0D && bytes[5] == 0x0A && bytes[6] == 0x1A && bytes[7] == 0x0A {
            assert(start =~= signature);
        }
    }
}

/// There is an icon in a file if the file is sound and can be decoded: the decoded image.
pub proof fn law_icon_is_decoded_image(bytes: Seq<u8>)
    ensures
        icon::sound_png(bytes) ==> icon::icon_in(bytes) == icon::decoded_rgba(bytes),
        !icon::sound_png(bytes) ==> icon::icon_in(bytes) is None,
{
}

/// An icon is shown with everything that is in it, and the one that shows nothing has no pixels.
pub proof fn law_icon_shown_whole(data: IconData)
    ensures
        data@ == (IconView { width: data.width, height: data.height, rgba: data.rgba@ }),
        icon::empty_icon().width == 0,
        icon::empty_icon().height == 0,
        icon::empty_icon().rgba == Seq::<u8>::empty(),
{
}

} // verus!
