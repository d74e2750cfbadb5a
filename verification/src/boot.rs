//! Confirmation of a successful start to the boot loader.
//!
//! After a swap the boot loader puts the old firmware back at the next reset
//! unless the new one has confirmed that it works.

use vstd::prelude::*;

use crate::bytes;
use crate::drivers::flash;
use crate::drivers::flash::FlashOp;
use crate::ota::STATE_ADDR;
use crate::ota::STATE_END;

verus! {

/// Every byte of the confirmation.
pub const BOOT_MAGIC: u8 = 0xD0;

/// The confirmation as a double word.
pub const BOOT_WORD: u64 = 0xD0D0_D0D0_D0D0_D0D0;

pub open spec fn confirmation() -> Seq<FlashOp> {
    seq![
        FlashOp::Erase { start: STATE_ADDR, end: STATE_END },
        FlashOp::Write {
            offset: STATE_ADDR,
            region_start: STATE_ADDR,
            region_end: STATE_END,
            value: BOOT_WORD,
        },
    ]
}

/// The flash operations that confirm the start.
pub fn mark_booted() -> (ops: [FlashOp; 2])
    ensures
        ops@ == confirmation(),
{
    [
        FlashOp::Erase { start: STATE_ADDR, end: STATE_END },
        FlashOp::Write {
            offset: STATE_ADDR,
            region_start: STATE_ADDR,
            region_end: STATE_END,
            value: BOOT_WORD,
        },
    ]
}

/// The confirmation is never refused by the driver, and leaves every byte of
/// the state word with the value that the boot loader looks for.
pub proof fn law_confirmation_fills_the_word(mem: flash::Memory)
    ensures
        forall|i: int| 0 <= i < 2 ==> flash::acceptable(#[trigger] confirmation()[i]),
        ({
            let after = flash::all_carried_out(mem, confirmation());
            forall|i: int| 0 <= i < 8 ==> #[trigger] after(STATE_ADDR + i) == BOOT_MAGIC
        }),
{
    let ops = confirmation();
    assert(ops.drop_last() =~= seq![ops[0]]);
    assert(seq![ops[0]].drop_last() =~= Seq::<FlashOp>::empty());
    assert(bytes::u32_le(0xD0D0_D0D0) =~= seq![BOOT_MAGIC, BOOT_MAGIC, BOOT_MAGIC, BOOT_MAGIC]);
    assert forall|i: int| 0 <= i < 8 implies #[trigger] bytes::u64_le(BOOT_WORD)[i]
        == BOOT_MAGIC by {}
}

/// The confirmation puts 0xD0 into the eight bytes from 0x0800_6000 on, and
/// leaves everything outside the page from there to 0x0800_6800 as it was.
pub proof fn law_confirmation_stays_in_its_page(mem: flash::Memory)
    ensures
        ({
            let after = flash::all_carried_out(mem, confirmation());
            &&& forall|i: int| 0 <= i < 8 ==> #[trigger] after(0x0800_6000 + i) == 0xD0
            &&& forall|a: int|
                a < 0x0800_6000 || a >= 0x0800_6800 ==> #[trigger] after(a) == mem(a)
        }),
{
    law_confirmation_fills_the_word(mem);
    let ops = confirmation();
    assert(ops.drop_last() =~= seq![ops[0]]);
    assert(seq![ops[0]].drop_last() =~= Seq::<FlashOp>::empty());
    let after = flash::all_carried_out(mem, ops);
    assert forall|i: int| 0 <= i < 8 implies #[trigger] after(0x0800_6000 + i) == 0xD0 by {
        assert(after(STATE_ADDR + i) == BOOT_MAGIC);
    }
    let blank = flash::erased(mem, STATE_ADDR as int, STATE_END as int);
    assert(flash::all_carried_out(mem, Seq::<FlashOp>::empty()) == mem);
    assert(flash::all_carried_out(mem, seq![ops[0]]) == blank);
    assert(after == flash::programmed(blank, STATE_ADDR as int, BOOT_WORD));
    assert forall|a: int| a < 0x0800_6000 || a >= 0x0800_6800 implies #[trigger] after(a)
        == mem(a) by {
        assert(blank(a) == mem(a));
    }
}

} // verus!
