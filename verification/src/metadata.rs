//! Metadata of a firmware image, in the last 32 bytes of its slot.
//!
//! ```text
//! 0   magic            (4 bytes, least significant first)
//! 4   image size       (4 bytes)
//! 8   image checksum   (4 bytes)
//! 12  build time stamp (4 bytes)
//! 16  version          (16 bytes)
//! ```

use vstd::prelude::*;

use crate::bytes;
use crate::drivers::flash;
use crate::drivers::flash::FlashError;
use crate::drivers::flash::METADATA_MAGIC;
use crate::drivers::flash::METADATA_SIZE;
use crate::drivers::flash::SLOT_A_BASE;
use crate::drivers::flash::SLOT_B_BASE;
use crate::drivers::flash::SLOT_SIZE;

verus! {

/// Time stamp of a block that was never written.
pub const BLANK_TIMESTAMP: u32 = 0xFFFF_FFFF;

#[derive(Copy, Clone, Debug, PartialEq, Eq)]
pub struct Metadata {
    pub magic: u32,
    pub image_size: u32,
    pub image_crc32: u32,
    pub build_timestamp: u32,
    pub version: [u8; 16],
}

/// `Metadata` with the version as a sequence.
#[verifier::ext_equal]
pub struct MetadataModel {
    pub magic: u32,
    pub image_size: u32,
    pub image_crc32: u32,
    pub build_timestamp: u32,
    pub version: Seq<u8>,
}

impl View for Metadata {
    type V = MetadataModel;

    open spec fn view(&self) -> MetadataModel {
        MetadataModel {
            magic: self.magic,
            image_size: self.image_size,
            image_crc32: self.image_crc32,
            build_timestamp: self.build_timestamp,
            version: self.version@,
        }
    }
}

/// A version with at least one byte that is neither 0 nor blank flash.
pub open spec fn is_meaningful(version: Seq<u8>) -> bool {
    exists|i: int|
        0 <= i < version.len() && #[trigger] version[i] != 0 && version[i] != 0xFF
}

impl MetadataModel {
    /// Metadata that a reader accepts.
    pub open spec fn valid(self) -> bool {
        &&& self.magic == METADATA_MAGIC
        &&& self.version.len() == 16
        &&& is_meaningful(self.version)
        &&& self.build_timestamp != BLANK_TIMESTAMP
    }

    /// The 32 bytes of a metadata block.
    pub open spec fn block(self) -> Seq<u8> {
        bytes::u32_le(self.magic) + bytes::u32_le(self.image_size) + bytes::u32_le(
            self.image_crc32,
        ) + bytes::u32_le(self.build_timestamp) + self.version
    }
}

/// The fields in a block of 32 bytes.
pub open spec fn fields(block: Seq<u8>) -> MetadataModel {
    MetadataModel {
        magic: bytes::le_u32(block),
        image_size: bytes::le_u32(block.skip(4)),
        image_crc32: bytes::le_u32(block.skip(8)),
        build_timestamp: bytes::le_u32(block.skip(12)),
        version: block.subrange(16, 32),
    }
}

/// First address of the slot that runs.
pub fn slot_base(slot: u8) -> (base: u32)
    ensures
        base == flash::slot_start(slot),
{
    if slot == 0 {
        SLOT_A_BASE
    } else {
        SLOT_B_BASE
    }
}

/// Where the metadata of the slot that runs stands.
pub fn metadata_addr(slot: u8) -> (addr: u32)
    ensures
        addr == flash::slot_start(slot) + SLOT_SIZE - METADATA_SIZE,
{
    slot_base(slot) + (SLOT_SIZE - METADATA_SIZE)
}

fn version_is_meaningful(version: &[u8; 16]) -> (b: bool)
    ensures
        b == is_meaningful(version@),
{
    let mut i: usize = 0;
    while i < 16
        invariant
            i <= 16,
            forall|j: int| 0 <= j < i ==> #[trigger] version@[j] == 0 || version@[j] == 0xFF,
        decreases 16 - i,
    {
        if version[i] != 0 && version[i] != 0xFF {
            assert(version@[i as int] != 0);
            return true;
        }
        i = i + 1;
    }
    false
}

/// Reads a block of metadata. There is none if the magic is wrong, the
/// version says nothing or the time stamp is blank.
pub fn read(block: &[u8; 32]) -> (r: Option<Metadata>)
    ensures
        match r {
            Some(m) => m@ == fields(block@) && m@.valid(),
            None => !fields(block@).valid(),
        },
{
    let b = block;
    let magic: u32 = bytes::u32_from_le([b[0], b[1], b[2], b[3]]);
    if magic != METADATA_MAGIC {
        return None;
    }
    let image_size: u32 = bytes::u32_from_le([b[4], b[5], b[6], b[7]]);
    let image_crc32: u32 = bytes::u32_from_le([b[8], b[9], b[10], b[11]]);
    let build_timestamp: u32 = bytes::u32_from_le([b[12], b[13], b[14], b[15]]);
    let version: [u8; 16] = [
        b[16], b[17], b[18], b[19], b[20], b[21], b[22], b[23],
        b[24], b[25], b[26], b[27], b[28], b[29], b[30], b[31],
    ];
    assert(version@ =~= block@.subrange(16, 32));
    if !version_is_meaningful(&version) || build_timestamp == BLANK_TIMESTAMP {
        return None;
    }
    Some(Metadata { magic, image_size, image_crc32, build_timestamp, version })
}

/// The double words that hold metadata.
pub open spec fn words_of(m: MetadataModel) -> Seq<u64> {
    let b = m.block();
    seq![
        bytes::le_u64(b),
        bytes::le_u64(b.skip(8)),
        bytes::le_u64(b.skip(16)),
        bytes::le_u64(b.skip(24)),
    ]
}

/// Address and value of the four double words that write metadata at `addr`.
/// The block must lie in one page. The words are written as
/// `next_metadata_word` says.
pub fn write_metadata(addr: u32, m: &Metadata) -> (r: Result<[(u32, u64); 4], FlashError>)
    requires
        addr >= flash::FLASH_BASE,
        addr + 31 <= u32::MAX,
    ensures
        match r {
            Ok(writes) => {
                &&& flash::page(addr as int) == flash::page(addr + 31)
                &&& forall|i: int|
                    0 <= i < 4 ==> #[trigger] writes@[i] == ((addr + 8 * i) as u32, words_of(m@)[i])
            },
            Err(e) => e == FlashError::CrossPage && flash::page(addr as int) != flash::page(
                addr + 31,
            ),
        },
{
    if flash::page_of(addr) != flash::page_of(addr + 31) {
        return Err(FlashError::CrossPage);
    }
    let magic = bytes::u32_to_le(m.magic);
    let size = bytes::u32_to_le(m.image_size);
    let crc = bytes::u32_to_le(m.image_crc32);
    let time = bytes::u32_to_le(m.build_timestamp);
    let v = m.version;
    let b0: [u8; 8] = [magic[0], magic[1], magic[2], magic[3], size[0], size[1], size[2], size[3]];
    let b1: [u8; 8] = [crc[0], crc[1], crc[2], crc[3], time[0], time[1], time[2], time[3]];
    let b2: [u8; 8] = [v[0], v[1], v[2], v[3], v[4], v[5], v[6], v[7]];
    let b3: [u8; 8] = [v[8], v[9], v[10], v[11], v[12], v[13], v[14], v[15]];
    proof {
        let b = m@.block();
        lemma_word_of(b, b0@, 0);
        lemma_word_of(b, b1@, 8);
        lemma_word_of(b, b2@, 16);
        lemma_word_of(b, b3@, 24);
        assert(b.skip(0) =~= b);
    }
    let writes: [(u32, u64); 4] = [
        (addr, bytes::u64_from_le(b0)),
        (addr + 8, bytes::u64_from_le(b1)),
        (addr + 16, bytes::u64_from_le(b2)),
        (addr + 24, bytes::u64_from_le(b3)),
    ];
    assert(words_of(m@)[0] == bytes::le_u64(b0@));
    assert(words_of(m@)[1] == bytes::le_u64(b1@));
    assert(words_of(m@)[2] == bytes::le_u64(b2@));
    assert(words_of(m@)[3] == bytes::le_u64(b3@));
    Ok(writes)
}

/// The double word that follows `done` others.
pub open spec fn next_of(words: Seq<(u32, u64)>, done: int, first_ok: bool) -> Option<(u32, u64)> {
    if done < words.len() && (done == 0 || first_ok) {
        Some(words[done])
    } else {
        None
    }
}

/// All words are written in order if the first was written, and otherwise only
/// the first is tried.
pub proof fn law_first_word_decides(words: Seq<(u32, u64)>, done: int)
    requires
        0 <= done,
    ensures
        done < words.len() ==> next_of(words, done, true) == Some(words[done]),
        done >= words.len() ==> next_of(words, done, true) is None,
        done > 0 ==> next_of(words, done, false) is None,
        words.len() > 0 ==> next_of(words, 0, false) == Some(words[0]),
{
}

/// The next double word of metadata to write, after `done` words. The others
/// are only written if the first was; what becomes of them does not matter.
pub fn next_metadata_word(words: &[(u32, u64); 4], done: usize, first_ok: bool) -> (w: Option<
    (u32, u64),
>)
    ensures
        w == next_of(words@, done as int, first_ok),
{
    if done < 4 && (done == 0 || first_ok) {
        Some(words[done])
    } else {
        None
    }
}

/// A number read from the start of a sequence only depends on its first
/// eight bytes.
proof fn lemma_word_of(b: Seq<u8>, word: Seq<u8>, at: int)
    requires
        0 <= at,
        at + 8 <= b.len(),
        word.len() == 8,
        forall|i: int| 0 <= i < 8 ==> #[trigger] word[i] == b[at + i],
    ensures
        bytes::le_u64(b.skip(at)) == bytes::le_u64(word),
{
    let s = b.skip(at);
    assert(s[0] == word[0] && s[1] == word[1] && s[2] == word[2] && s[3] == word[3]);
    let t = s.skip(4);
    let w = word.skip(4);
    assert(t[0] == w[0] && t[1] == w[1] && t[2] == w[2] && t[3] == w[3]);
}

/// Valid metadata reads back as it was written.
pub proof fn law_metadata_reads_back(m: MetadataModel)
    requires
        m.version.len() == 16,
    ensures
        m.block().len() == 32,
        fields(m.block()) == m,
{
    let b = m.block();
    bytes::lemma_u32_le_round_trip(m.magic);
    bytes::lemma_u32_le_round_trip(m.image_size);
    bytes::lemma_u32_le_round_trip(m.image_crc32);
    bytes::lemma_u32_le_round_trip(m.build_timestamp);
    lemma_number_at(b, bytes::u32_le(m.magic), 0);
    lemma_number_at(b, bytes::u32_le(m.image_size), 4);
    lemma_number_at(b, bytes::u32_le(m.image_crc32), 8);
    lemma_number_at(b, bytes::u32_le(m.build_timestamp), 12);
    assert(b.skip(0) =~= b);
    assert(b.subrange(16, 32) =~= m.version);
}

proof fn lemma_number_at(b: Seq<u8>, word: Seq<u8>, at: int)
    requires
        0 <= at,
        at + 4 <= b.len(),
        word.len() == 4,
        forall|i: int| 0 <= i < 4 ==> #[trigger] word[i] == b[at + i],
    ensures
        bytes::le_u32(b.skip(at)) == bytes::le_u32(word),
{
    let s = b.skip(at);
    assert(s[0] == word[0] && s[1] == word[1] && s[2] == word[2] && s[3] == word[3]);
}

/// Memory after metadata was written at `addr`.
pub open spec fn with_metadata(mem: flash::Memory, addr: int, m: MetadataModel) -> flash::Memory {
    let w = words_of(m);
    let m0 = flash::programmed(mem, addr, w[0]);
    let m1 = flash::programmed(m0, addr + 8, w[1]);
    let m2 = flash::programmed(m1, addr + 16, w[2]);
    flash::programmed(m2, addr + 24, w[3])
}

/// Valid metadata written to flash is what a reader of those 32 bytes
/// accepts and gets.
pub proof fn law_written_metadata_is_read(mem: flash::Memory, addr: int, m: MetadataModel)
    requires
        m.valid(),
    ensures
        ({
            let after = with_metadata(mem, addr, m);
            let block = Seq::new(32, |i: int| after(addr + i));
            fields(block) == m && fields(block).valid()
        }),
{
    law_metadata_reads_back(m);
    let b = m.block();
    let after = with_metadata(mem, addr, m);
    let block = Seq::new(32, |i: int| after(addr + i));
    lemma_word_bytes(b, 0);
    lemma_word_bytes(b, 8);
    lemma_word_bytes(b, 16);
    lemma_word_bytes(b, 24);
    assert(b.skip(0) =~= b);
    assert forall|i: int| 0 <= i < 32 implies block[i] == b[i] by {
        let w = words_of(m);
        if i < 8 {
            assert(bytes::u64_le(w[0])[i] == b[i]);
        } else if i < 16 {
            assert(bytes::u64_le(w[1])[i - 8] == b[i]);
        } else if i < 24 {
            assert(bytes::u64_le(w[2])[i - 16] == b[i]);
        } else {
            assert(bytes::u64_le(w[3])[i - 24] == b[i]);
        }
    }
    assert(block =~= b);
}

/// The bytes of the double word at `at` of a block are the block's.
proof fn lemma_word_bytes(b: Seq<u8>, at: int)
    requires
        0 <= at,
        at + 8 <= b.len(),
    ensures
        forall|i: int|
            0 <= i < 8 ==> #[trigger] bytes::u64_le(bytes::le_u64(b.skip(at)))[i] == b[at + i],
{
    let word = b.subrange(at, at + 8);
    lemma_word_of(b, word, at);
    bytes::lemma_le_u64_round_trip(word);
}

/// Where the fields of a block stand: the magic first, then the image size, its
/// checksum and the time stamp, four bytes each and least significant first,
/// then the 16 bytes of the version.
pub proof fn law_metadata_layout(m: MetadataModel, block: Seq<u8>, i: int)
    requires
        m.version.len() == 16,
        block.len() == 32,
    ensures
        m.block().len() == 32,
        0 <= i < 4 ==> m.block()[i] == bytes::u32_le(m.magic)[i],
        4 <= i < 8 ==> m.block()[i] == bytes::u32_le(m.image_size)[i - 4],
        8 <= i < 12 ==> m.block()[i] == bytes::u32_le(m.image_crc32)[i - 8],
        12 <= i < 16 ==> m.block()[i] == bytes::u32_le(m.build_timestamp)[i - 12],
        16 <= i < 32 ==> m.block()[i] == m.version[i - 16],
        16 <= i < 32 ==> fields(block).version[i - 16] == block[i],
{
}

/// A block is accepted exactly if it starts with 0x1A, 0x00, 0xC1, 0xF0, its time
/// stamp is not four times 0xFF, and its version has a byte other than 0x00 and
/// 0xFF.
pub proof fn law_metadata_acceptance(block: Seq<u8>)
    requires
        block.len() == 32,
    ensures
        fields(block).valid() <==> {
            &&& block[0] == 0x1A && block[1] == 0x00 && block[2] == 0xC1 && block[3] == 0xF0
            &&& !(block[12] == 0xFF && block[13] == 0xFF && block[14] == 0xFF && block[15] == 0xFF)
            &&& exists|i: int| 16 <= i < 32 && #[trigger] block[i] != 0x00 && block[i] != 0xFF
        },
{
    let t = block.skip(12);
    assert(t[0] == block[12] && t[1] == block[13] && t[2] == block[14] && t[3] == block[15]);
    let version = block.subrange(16, 32);
    if exists|i: int| 16 <= i < 32 && #[trigger] block[i] != 0x00 && block[i] != 0xFF {
        let i = choose|i: int| 16 <= i < 32 && #[trigger] block[i] != 0x00 && block[i] != 0xFF;
        assert(version[i - 16] == block[i]);
        assert(is_meaningful(version));
    }
    if is_meaningful(version) {
        let i = choose|i: int|
            0 <= i < version.len() && #[trigger] version[i] != 0 && version[i] != 0xFF;
        assert(block[16 + i] == version[i]);
    }
}

} // verus!
