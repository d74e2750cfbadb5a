//! Flash with one application image from the start of flash, and a short
//! block of metadata behind it.

use vstd::prelude::*;

pub use crate::drivers::flash::FlashError;

use crate::bytes;
use crate::drivers::flash;
use crate::metadata;

verus! {

/// Start of the image.
pub const APP_START: u32 = 0x0800_0000;

/// End of the image (exclusive).
pub const APP_END: u32 = 0x0801_F800;

/// Where the metadata stands.
pub const METADATA_ADDR: u32 = 0x0801_F800;

/// What follows the checksum in the metadata.
pub const METADATA_PADDING: u32 = 0xFFFF_FFFF;

/// The page numbers of the image, all of which an update erases. The
/// metadata is not among them.
pub fn erase_app_region() -> (pages: Vec<u8>)
    ensures
        pages@ == Seq::new(63, |i: int| i as u8),
{
    let pages = flash::pages_to_erase(APP_START, APP_END);
    assert(pages@ =~= Seq::new(63, |i: int| i as u8));
    pages
}

/// Checks that one double word may be written at `offset` of the image.
pub fn check_app_write(offset: u32) -> (r: Result<(), FlashError>)
    requires
        flash::checkable(offset, APP_START, APP_END),
    ensures
        r == flash::write_verdict(offset, APP_START, APP_END),
{
    flash::check_write(offset, APP_START, APP_END)
}

/// The bytes of the metadata: magic, size, checksum and padding.
pub open spec fn metadata_block(magic: u32, image_size: u32, image_crc: u32) -> Seq<u8> {
    bytes::u32_le(magic) + bytes::u32_le(image_size) + bytes::u32_le(image_crc) + bytes::u32_le(
        METADATA_PADDING,
    )
}

/// The two double words of the metadata, which are written as
/// `next_metadata_word` says.
pub fn write_metadata(magic: u32, image_size: u32, image_crc: u32) -> (words: [(u32, u64); 2])
    ensures
        words@[0].0 == METADATA_ADDR,
        words@[1].0 == METADATA_ADDR + 8,
        bytes::u64_le(words@[0].1) + bytes::u64_le(words@[1].1) == metadata_block(
            magic,
            image_size,
            image_crc,
        ),
{
    let word0: u64 = magic as u64 + 0x1_0000_0000 * (image_size as u64);
    let word1: u64 = image_crc as u64 + 0x1_0000_0000 * (METADATA_PADDING as u64);
    let words: [(u32, u64); 2] = [(METADATA_ADDR, word0), (METADATA_ADDR + 8, word1)];
    proof {
        assert(word0 % 0x1_0000_0000 == magic && word0 / 0x1_0000_0000 == image_size);
        assert(word1 % 0x1_0000_0000 == image_crc && word1 / 0x1_0000_0000 == METADATA_PADDING);
        assert(bytes::u64_le(word0) + bytes::u64_le(word1) =~= metadata_block(
            magic,
            image_size,
            image_crc,
        ));
    }
    words
}

/// The next double word of metadata to write, after `done` words. The second
/// is only written if the first was; what becomes of it does not matter.
pub fn next_metadata_word(words: &[(u32, u64); 2], done: usize, first_ok: bool) -> (w: Option<
    (u32, u64),
>)
    ensures
        w == metadata::next_of(words@, done as int, first_ok),
{
    if done < 2 && (done == 0 || first_ok) {
        Some(words[done])
    } else {
        None
    }
}

/// The metadata lies outside the image, so erasing the image keeps it.
pub proof fn law_erasing_keeps_the_metadata(mem: flash::Memory, i: int)
    requires
        0 <= i < flash::ERASE_SIZE,
    ensures
        flash::erased(mem, APP_START as int, APP_END as int)(METADATA_ADDR + i) == mem(
            METADATA_ADDR + i,
        ),
{
}

/// The metadata: magic, size and checksum, four bytes each and least significant
/// first, then four times 0xFF.
pub proof fn law_metadata_layout(magic: u32, image_size: u32, image_crc: u32, i: int)
    ensures
        metadata_block(magic, image_size, image_crc).len() == 16,
        0 <= i < 4 ==> metadata_block(magic, image_size, image_crc)[i] == bytes::u32_le(magic)[i],
        4 <= i < 8 ==> metadata_block(magic, image_size, image_crc)[i] == bytes::u32_le(
            image_size,
        )[i - 4],
        8 <= i < 12 ==> metadata_block(magic, image_size, image_crc)[i] == bytes::u32_le(
            image_crc,
        )[i - 8],
        12 <= i < 16 ==> metadata_block(magic, image_size, image_crc)[i] == 0xFF,
{
}

/// A double word of the image may be written at every multiple of eight from
/// 0x0800_0000 up to 0x0801_F7F8, and nowhere else.
pub proof fn law_image_writes(offset: u32)
    ensures
        flash::write_verdict(offset, APP_START, APP_END) is Ok <==> offset % 8 == 0 && 0x0800_0000
            <= offset <= 0x0801_F7F8,
        METADATA_ADDR == 0x0801_F800,
{
}

} // verus!
