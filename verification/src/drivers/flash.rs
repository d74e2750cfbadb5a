//! On-chip flash: page arithmetic, the two application slots, write checks
//! and the operations that an update asks the controller to carry out.
//!
//! Bootloader at 0x0800_0000 (8 KB), slot A at 0x0800_2000 (58 KB), slot B
//! at 0x0801_0800 (58 KB), slot configuration at 0x0801_FFF8 (8 bytes).

use vstd::prelude::*;

use crate::bytes;

verus! {

/// Page numbers count from this address.
pub const FLASH_BASE: u32 = 0x0800_0000;

/// Bytes in one erasable page.
pub const ERASE_SIZE: u32 = 2048;

/// Bytes in one programmable double word.
pub const WRITE_SIZE: u32 = 8;

pub const SLOT_A_BASE: u32 = 0x0800_2000;

pub const SLOT_B_BASE: u32 = 0x0801_0800;

pub const SLOT_SIZE: u32 = 0xE800;

pub const SLOT_CONFIG_ADDR: u32 = 0x0801_FFF8;

/// Bytes of metadata at the end of each slot.
pub const METADATA_SIZE: u32 = 32;

pub const METADATA_MAGIC: u32 = 0xF0C1_001A;

#[derive(Copy, Clone, Debug, PartialEq, Eq, Structural)]
pub enum FlashError {
    Unaligned,
    OutOfBounds,
    /// The write would span two pages, which the controller cannot do.
    CrossPage,
    ProgramError,
}

/// One piece of work for the flash controller.
#[derive(Copy, Clone, Debug, PartialEq, Eq, Structural)]
pub enum FlashOp {
    /// Erase the pages from that of `start` up to but without that of `end`.
    Erase { start: u32, end: u32 },
    /// Program `value` at `offset`, which must lie in the given region.
    Write { offset: u32, region_start: u32, region_end: u32, value: u64 },
    /// Read `len` bytes from `start` as words, the last one possibly beyond.
    Read { start: u32, len: u32 },
}

/// What came of a `FlashOp`: success or failure of an erase or a write, or
/// the words of a read.
#[derive(Debug)]
pub enum FlashOutcome {
    Done(Result<(), FlashError>),
    Words(Vec<u32>),
}

/// Contents of memory by address.
pub type Memory = spec_fn(int) -> u8;

/// Index of the page that holds `offset`.
pub open spec fn page(offset: int) -> int {
    (offset - FLASH_BASE) / (ERASE_SIZE as int)
}

/// Memory after the eight bytes at `offset` were programmed with `value`.
pub open spec fn programmed(mem: Memory, offset: int, value: u64) -> Memory {
    |a: int|
        if offset <= a < offset + 8 {
            bytes::u64_le(value)[a - offset]
        } else {
            mem(a)
        }
}

/// Memory after the pages of `start` up to `end` were erased.
pub open spec fn erased(mem: Memory, start: int, end: int) -> Memory {
    |a: int|
        if page(start) <= page(a) < page(end) {
            0xFFu8
        } else {
            mem(a)
        }
}

/// Memory after `op` was carried out without error.
pub open spec fn carried_out(mem: Memory, op: FlashOp) -> Memory {
    match op {
        FlashOp::Erase { start, end } => erased(mem, start as int, end as int),
        FlashOp::Write { offset, value, .. } => programmed(mem, offset as int, value),
        FlashOp::Read { .. } => mem,
    }
}

/// Memory after all of `ops` were carried out in order without error.
pub open spec fn all_carried_out(mem: Memory, ops: Seq<FlashOp>) -> Memory
    decreases ops.len(),
{
    if ops.len() == 0 {
        mem
    } else {
        carried_out(all_carried_out(mem, ops.drop_last()), ops.last())
    }
}

/// Whether the driver lets a double word be written at `offset`.
pub open spec fn write_verdict(offset: u32, region_start: u32, region_end: u32) -> Result<
    (),
    FlashError,
> {
    if offset % WRITE_SIZE != 0 {
        Err(FlashError::Unaligned)
    } else if offset < region_start || offset + WRITE_SIZE > region_end {
        Err(FlashError::OutOfBounds)
    } else if page(offset as int) != page(offset + WRITE_SIZE - 1) {
        Err(FlashError::CrossPage)
    } else {
        Ok(())
    }
}

/// Whether a write to `offset` can be checked: it is refused before its page
/// matters, or it has a page, and the end of the double word is an address.
pub open spec fn checkable(offset: u32, region_start: u32, region_end: u32) -> bool {
    ||| offset % WRITE_SIZE != 0
    ||| offset < region_start
    ||| offset + WRITE_SIZE <= u32::MAX && (offset >= FLASH_BASE || offset + WRITE_SIZE > region_end)
}

/// An operation that the driver carries out rather than refuses: an erase of
/// whole pages of this flash, or a write that passes the driver's checks.
pub open spec fn acceptable(op: FlashOp) -> bool {
    match op {
        FlashOp::Erase { start, end } => FLASH_BASE <= start <= end <= 0x0802_0000,
        FlashOp::Write { offset, region_start, region_end, .. } => write_verdict(
            offset,
            region_start,
            region_end,
        ) == Ok::<(), FlashError>(()),
        FlashOp::Read { .. } => true,
    }
}

/// A double word at an aligned address never spans two pages, so the only
/// reasons to refuse a write are its alignment and its region.
pub proof fn law_aligned_writes_stay_in_a_page(offset: u32, region_start: u32, region_end: u32)
    ensures
        write_verdict(offset, region_start, region_end) != Err::<(), FlashError>(
            FlashError::CrossPage,
        ),
{
}

/// The slot that runs, from the address of the active vector table.
pub open spec fn running_slot(vtor: u32) -> u8 {
    if vtor >= SLOT_B_BASE {
        1
    } else {
        0
    }
}

/// The slot that runs, from the address of the active vector table.
pub fn current_slot(vtor: u32) -> (slot: u8)
    ensures
        slot == running_slot(vtor),
{
    if vtor >= SLOT_B_BASE {
        1
    } else {
        0
    }
}

/// First address of a slot; anything but 0 is slot B.
pub open spec fn slot_start(slot: u8) -> u32 {
    if slot == 0 {
        SLOT_A_BASE
    } else {
        SLOT_B_BASE
    }
}

/// Address range of the slot that does not run.
pub fn other_slot_range(slot: u8) -> (r: (u32, u32))
    ensures
        r.0 == if slot == 0 { SLOT_B_BASE } else { SLOT_A_BASE },
        r.1 == r.0 + SLOT_SIZE,
{
    if slot == 0 {
        (SLOT_B_BASE, SLOT_B_BASE + SLOT_SIZE)
    } else {
        (SLOT_A_BASE, SLOT_A_BASE + SLOT_SIZE)
    }
}

/// Where the metadata of the slot that does not run stands.
pub fn other_metadata_addr(slot: u8) -> (addr: u32)
    ensures
        addr == (if slot == 0 { SLOT_B_BASE } else { SLOT_A_BASE }) + SLOT_SIZE - METADATA_SIZE,
{
    let (_, end) = other_slot_range(slot);
    end - METADATA_SIZE
}

/// The two slots are disjoint, and neither holds the slot configuration.
pub proof fn law_slots_are_disjoint(a: int)
    ensures
        !(SLOT_A_BASE <= a < SLOT_A_BASE + SLOT_SIZE && SLOT_B_BASE <= a < SLOT_B_BASE + SLOT_SIZE),
        !(SLOT_A_BASE <= SLOT_CONFIG_ADDR < SLOT_A_BASE + SLOT_SIZE),
        !(SLOT_B_BASE <= SLOT_CONFIG_ADDR < SLOT_B_BASE + SLOT_SIZE),
{
}

/// Number of the page that holds `offset`.
pub fn page_of(offset: u32) -> (p: u32)
    requires
        offset >= FLASH_BASE,
    ensures
        p == page(offset as int),
{
    (offset - FLASH_BASE) / ERASE_SIZE
}

/// The page numbers that an erase from `start` to `end` hands to the
/// controller, in order. The controller's field is eight bits wide.
pub open spec fn erase_list(start: int, end: int) -> Seq<u8> {
    Seq::new(
        if page(start) <= page(end) {
            (page(end) - page(start)) as nat
        } else {
            0
        },
        |i: int| ((page(start) + i) % 256) as u8,
    )
}

/// The page numbers that an erase from `start` to `end` hands to the
/// controller, in order.
pub fn pages_to_erase(start: u32, end: u32) -> (pages: Vec<u8>)
    requires
        start >= FLASH_BASE,
        end >= FLASH_BASE,
    ensures
        pages@.len() == if page(start as int) <= page(end as int) {
            page(end as int) - page(start as int)
        } else {
            0
        },
        forall|i: int|
            0 <= i < pages@.len() ==> #[trigger] pages@[i] == (page(start as int) + i) % 256,
        pages@ == erase_list(start as int, end as int),
{
    let first: u32 = page_of(start);
    let last: u32 = page_of(end);
    let mut pages: Vec<u8> = Vec::new();
    let mut p: u32 = first;
    while p < last
        invariant
            first <= p,
            p <= last || (p == first && pages@.len() == 0),
            first == page(start as int),
            pages@.len() == p - first,
            forall|i: int|
                0 <= i < pages@.len() ==> #[trigger] pages@[i] == (page(start as int) + i) % 256,
        decreases last - p,
    {
        pages.push((p % 256) as u8);
        p = p + 1;
    }
    assert(pages@ =~= erase_list(start as int, end as int));
    pages
}

/// Checks that one double word may be written at `offset`.
pub fn check_write(offset: u32, region_start: u32, region_end: u32) -> (r: Result<(), FlashError>)
    requires
        checkable(offset, region_start, region_end),
    ensures
        r == write_verdict(offset, region_start, region_end),
{
    if offset % WRITE_SIZE != 0 {
        return Err(FlashError::Unaligned);
    }
    if offset < region_start || offset + WRITE_SIZE > region_end {
        return Err(FlashError::OutOfBounds);
    }
    if page_of(offset) != page_of(offset + WRITE_SIZE - 1) {
        return Err(FlashError::CrossPage);
    }
    Ok(())
}

/// The error flags of the controller's status register.
#[derive(Copy, Clone, Debug, PartialEq, Eq, Structural)]
pub struct StatusFlags {
    pub progerr: bool,
    pub wrperr: bool,
    pub pgaerr: bool,
    pub sizerr: bool,
    pub pgserr: bool,
}

/// A controller operation has failed exactly when an error flag is up.
pub fn check_errors(sr: StatusFlags) -> (r: Result<(), FlashError>)
    ensures
        r == if sr.progerr || sr.wrperr || sr.pgaerr || sr.sizerr || sr.pgserr {
            Err::<(), FlashError>(FlashError::ProgramError)
        } else {
            Ok(())
        },
{
    if sr.progerr || sr.wrperr || sr.pgaerr || sr.sizerr || sr.pgserr {
        Err(FlashError::ProgramError)
    } else {
        Ok(())
    }
}

/// The operations that replace the slot configuration word.
pub open spec fn slot_config_ops(value: u64) -> Seq<FlashOp> {
    seq![
        FlashOp::Erase { start: 0x0801_F800, end: 0x0802_0000 },
        FlashOp::Write {
            offset: SLOT_CONFIG_ADDR,
            region_start: SLOT_CONFIG_ADDR,
            region_end: 0x0802_0000,
            value,
        },
    ]
}

/// Erases the page of the slot configuration and writes `value` to it.
pub fn write_slot_config(value: u64) -> (ops: [FlashOp; 2])
    ensures
        ops@ == slot_config_ops(value),
{
    [
        FlashOp::Erase {
            start: SLOT_CONFIG_ADDR - SLOT_CONFIG_ADDR % ERASE_SIZE,
            end: SLOT_CONFIG_ADDR + 8,
        },
        FlashOp::Write {
            offset: SLOT_CONFIG_ADDR,
            region_start: SLOT_CONFIG_ADDR,
            region_end: SLOT_CONFIG_ADDR + 8,
            value,
        },
    ]
}

/// Writing the slot configuration is never refused, and leaves `value`
/// there to be read.
pub proof fn law_slot_config_reads_back(mem: Memory, value: u64)
    ensures
        forall|i: int| 0 <= i < 2 ==> acceptable(#[trigger] slot_config_ops(value)[i]),
        ({
            let after = all_carried_out(mem, slot_config_ops(value));
            forall|i: int|
                0 <= i < 8 ==> #[trigger] after(SLOT_CONFIG_ADDR + i) == bytes::u64_le(value)[i]
        }),
{
}

/// A double word may be written exactly where it is aligned to eight bytes and
/// lies in the region; otherwise misalignment is the first reason to refuse it.
pub proof fn law_write_checks(offset: u32, region_start: u32, region_end: u32)
    ensures
        write_verdict(offset, region_start, region_end) == if offset % 8 != 0 {
            Err::<(), FlashError>(FlashError::Unaligned)
        } else if region_start <= offset && offset + 8 <= region_end {
            Ok(())
        } else {
            Err(FlashError::OutOfBounds)
        },
{
}

/// Pages are 2048 bytes long and count from 0x0800_0000.
pub proof fn law_pages(offset: int, p: int)
    ensures
        page(offset) == p <==> 0x0800_0000 + 2048 * p <= offset < 0x0800_0000 + 2048 * (p + 1),
{
}

/// Slot A, number 0, starts at 0x0800_2000, and slot B, every other number, at
/// 0x0801_0800; both are 58 KB long, and their metadata is in the last 32 bytes.
pub proof fn law_slots(slot: u8)
    ensures
        slot_start(slot) == if slot == 0 {
            0x0800_2000u32
        } else {
            0x0801_0800
        },
        SLOT_SIZE == 58 * 1024,
        slot_start(slot) + SLOT_SIZE - METADATA_SIZE == if slot == 0 {
            0x0801_07E0int
        } else {
            0x0801_EFE0
        },
{
}

/// Writing the slot configuration puts the value at 0x0801_FFF8 and leaves
/// everything outside the page from 0x0801_F800 to 0x0802_0000 as it was.
pub proof fn law_slot_config_stays_in_its_page(mem: Memory, value: u64)
    ensures
        ({
            let after = all_carried_out(mem, slot_config_ops(value));
            &&& forall|i: int|
                0 <= i < 8 ==> #[trigger] after(0x0801_FFF8 + i) == bytes::u64_le(value)[i]
            &&& forall|a: int|
                a < 0x0801_F800 || a >= 0x0802_0000 ==> #[trigger] after(a) == mem(a)
        }),
{
    let ops = slot_config_ops(value);
    assert(ops.drop_last() =~= seq![ops[0]]);
    assert(seq![ops[0]].drop_last() =~= Seq::<FlashOp>::empty());
    let blank = erased(mem, 0x0801_F800, 0x0802_0000);
    let after = all_carried_out(mem, ops);
    assert(all_carried_out(mem, Seq::<FlashOp>::empty()) == mem);
    assert(all_carried_out(mem, seq![ops[0]]) == blank);
    assert(after == programmed(blank, 0x0801_FFF8, value));
    assert forall|a: int| a < 0x0801_F800 || a >= 0x0802_0000 implies #[trigger] after(a)
        == mem(a) by {
        assert(blank(a) == mem(a));
    }
}

/// In this flash, an erase hands exactly the pages to the controller whose bytes
/// are blank afterwards, each once and in ascending order.
pub proof fn law_erase_covers_its_pages(mem: Memory, start: int, end: int, a: int)
    requires
        0x0800_0000 <= start <= 0x0802_0000,
        0x0800_0000 <= end <= 0x0802_0000,
        0x0800_0000 <= a < 0x0802_0000,
    ensures
        erase_list(start, end).contains(((a - 0x0800_0000) / 2048) as u8) ==> erased(
            mem,
            start,
            end,
        )(a) == 0xFF,
        !erase_list(start, end).contains(((a - 0x0800_0000) / 2048) as u8) ==> erased(
            mem,
            start,
            end,
        )(a) == mem(a),
        forall|i: int, j: int|
            0 <= i < j < erase_list(start, end).len() ==> #[trigger] erase_list(start, end)[i]
                < #[trigger] erase_list(start, end)[j],
{
    let list = erase_list(start, end);
    let p = (a - 0x0800_0000) / 2048;
    if page(start) <= p < page(end) {
        assert(list[p - page(start)] == p as u8);
    }
    if list.contains(p as u8) {
        let i = choose|i: int| 0 <= i < list.len() && #[trigger] list[i] == p as u8;
        assert(list[i] == page(start) + i);
    }
}

/// A vector table anywhere in a slot tells that this slot runs.
pub proof fn law_vector_table_tells_the_slot(slot: u8, vtor: u32)
    requires
        slot <= 1,
        slot_start(slot) <= vtor < slot_start(slot) + SLOT_SIZE,
    ensures
        running_slot(vtor) == slot,
{
}

} // verus!
