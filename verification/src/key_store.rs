//! Key material of the device: three blocks of 16 bytes in a page of flash
//! of their own. A device whose page is blank gets material of its own at
//! its first start. SecurityAccess derives its keys from it, in place of the
//! material that every device is built with.

use vstd::prelude::*;

use crate::bytes;
use crate::drivers::flash;
use crate::drivers::flash::FlashOp;
use crate::ota;
use crate::ota::laws;
use crate::uds::config;
use crate::uds::crypto::AesBlock;

verus! {

/// Where the key material stands.
pub const KEY_STORE_ADDR: u32 = 0x0801_F800;

/// End of the page that holds the key material.
pub const KEY_STORE_END: u32 = 0x0802_0000;

/// Bytes of key material.
pub const KEY_STORE_SIZE: usize = 48;

/// Words of key material.
pub const KEY_STORE_WORDS: usize = 12;

/// Flash operations that save key material: an erase and six writes.
pub const STORE_OPS: usize = 7;

/// Flash that was never written.
pub open spec fn is_blank(raw: Seq<u8>) -> bool {
    forall|i: int| 0 <= i < raw.len() ==> #[trigger] raw[i] == 0xFF
}

/// The key material in the words read from flash, if it is not blank.
pub open spec fn loaded(words: Seq<u32>) -> Option<Seq<u8>> {
    let raw = ota::words_bytes(words);
    if is_blank(raw) {
        None
    } else {
        Some(raw)
    }
}

/// What a start comes to, from the words read from flash: the key material to
/// work with, and the flash operations that save it. Material that is there is
/// used and left alone; only blank flash takes the fresh material.
pub open spec fn started(words: Seq<u32>, fresh: Seq<u8>) -> (Seq<u8>, Seq<FlashOp>) {
    match loaded(words) {
        Some(stored) => (stored, Seq::empty()),
        None => (fresh, store_ops(fresh)),
    }
}

/// The bytes of flash where the key material stands.
pub open spec fn kept_in(mem: flash::Memory) -> Seq<u8> {
    Seq::new(KEY_STORE_SIZE as nat, |i: int| mem(KEY_STORE_ADDR + i))
}

/// Key material and flash after a start with a controller that works.
pub open spec fn start_on(mem: flash::Memory, fresh: Seq<u8>) -> (Seq<u8>, flash::Memory) {
    let words = laws::memory_words(mem, KEY_STORE_ADDR as int, KEY_STORE_SIZE as u32);
    let start = started(words, fresh);
    (start.0, flash::all_carried_out(mem, start.1))
}

/// The write of double word `k` of the material.
pub open spec fn word_write(material: Seq<u8>, k: int) -> FlashOp {
    FlashOp::Write {
        offset: (KEY_STORE_ADDR + 8 * k) as u32,
        region_start: KEY_STORE_ADDR,
        region_end: KEY_STORE_END,
        value: bytes::le_u64(material.subrange(8 * k, 8 * k + 8)),
    }
}

/// The operations that save key material, in order.
pub open spec fn store_ops(material: Seq<u8>) -> Seq<FlashOp> {
    Seq::new(
        STORE_OPS as nat,
        |i: int|
            if i == 0 {
                FlashOp::Erase { start: KEY_STORE_ADDR, end: KEY_STORE_END }
            } else {
                word_write(material, i - 1)
            },
    )
}

/// The key made of four random words, or the all-zero key if one of them did
/// not come in time.
pub open spec fn key_of(words: Seq<Option<u32>>) -> Seq<u8> {
    if exists|i: int| 0 <= i < 4 && #[trigger] words[i] is None {
        Seq::new(16, |i: int| 0u8)
    } else {
        bytes::u32_le(words[0]->0) + bytes::u32_le(words[1]->0) + bytes::u32_le(words[2]->0)
            + bytes::u32_le(words[3]->0)
    }
}

/// Makes a key of the words that the random number generator gave; `None`
/// stands for one that did not come in time.
pub fn generate_key_from_rng(words: [Option<u32>; 4]) -> (key: AesBlock)
    ensures
        key@ == key_of(words@),
{
    match (words[0], words[1], words[2], words[3]) {
        (Some(w0), Some(w1), Some(w2), Some(w3)) => {
            let a = bytes::u32_to_le(w0);
            let b = bytes::u32_to_le(w1);
            let c = bytes::u32_to_le(w2);
            let d = bytes::u32_to_le(w3);
            let key = AesBlock::from_bytes(
                [
                    a[0], a[1], a[2], a[3], b[0], b[1], b[2], b[3],
                    c[0], c[1], c[2], c[3], d[0], d[1], d[2], d[3],
                ],
            );
            proof {
                assert forall|i: int| 0 <= i < 4 implies #[trigger] words@[i] is Some by {}
                assert(key@ =~= key_of(words@));
            }
            key
        },
        _ => {
            let key = AesBlock::from_bytes([0; 16]);
            proof {
                assert(words@[0] is None || words@[1] is None || words@[2] is None
                    || words@[3] is None);
                assert(key@ =~= key_of(words@));
            }
            key
        },
    }
}

/// The key material in the words read from flash, or `None` if the flash is
/// blank and the device needs material of its own.
pub fn load(words: &[u32]) -> (keys: Option<[AesBlock; 3]>)
    requires
        words@.len() == KEY_STORE_WORDS,
    ensures
        loaded(words@) == match keys {
            Some(blocks) => Some(config::material(blocks@)),
            None => None,
        },
{
    let ghost all = ota::words_bytes(words@);
    let mut raw: [u8; 48] = [0; 48];
    let mut erased = true;
    let mut i: usize = 0;
    while i < KEY_STORE_SIZE
        invariant
            i <= KEY_STORE_SIZE,
            words@.len() == KEY_STORE_WORDS,
            all == ota::words_bytes(words@),
            forall|j: int| 0 <= j < i ==> #[trigger] raw@[j] == all[j],
            erased == (forall|j: int| 0 <= j < i ==> #[trigger] all[j] == 0xFF),
        decreases KEY_STORE_SIZE - i,
    {
        let le = bytes::u32_to_le(words[i / 4]);
        let b: u8 = le[i % 4];
        assert(b == all[i as int]);
        raw[i] = b;
        if b != 0xFF {
            erased = false;
        }
        i = i + 1;
    }
    if erased {
        return None;
    }
    let blocks: [AesBlock; 3] = [block_at(&raw, 0), block_at(&raw, 16), block_at(&raw, 32)];
    assert(config::material(blocks@) =~= all);
    Some(blocks)
}

/// The block that starts at `start`.
fn block_at(raw: &[u8; 48], start: usize) -> (block: AesBlock)
    requires
        start + 16 <= 48,
    ensures
        block@ == raw@.subrange(start as int, start + 16),
{
    let mut b: [u8; 16] = [0; 16];
    let mut i: usize = 0;
    while i < 16
        invariant
            i <= 16,
            start + 16 <= 48,
            forall|j: int| 0 <= j < i ==> #[trigger] b@[j] == raw@[start + j],
        decreases 16 - i,
    {
        b[i] = raw[start + i];
        i = i + 1;
    }
    let block = AesBlock::from_bytes(b);
    assert(block@ =~= raw@.subrange(start as int, start + 16));
    block
}

/// The eight bytes of a block from `start` on, as a double word.
fn half(block: &AesBlock, start: usize) -> (v: u64)
    requires
        start == 0 || start == 8,
    ensures
        v == bytes::le_u64(block@.subrange(start as int, start + 8)),
{
    let b = block.0;
    let word: [u8; 8] = [
        b[start], b[start + 1], b[start + 2], b[start + 3],
        b[start + 4], b[start + 5], b[start + 6], b[start + 7],
    ];
    assert(word@ =~= block@.subrange(start as int, start + 8));
    bytes::u64_from_le(word)
}

/// The operations that save key material.
pub fn store(keys: &[AesBlock; 3]) -> (ops: Vec<FlashOp>)
    ensures
        ops@ == store_ops(config::material(keys@)),
{
    let ghost material = config::material(keys@);
    let mut ops: Vec<FlashOp> = Vec::new();
    ops.push(FlashOp::Erase { start: KEY_STORE_ADDR, end: KEY_STORE_END });
    let mut i: usize = 0;
    while i < 3
        invariant
            i <= 3,
            material == config::material(keys@),
            ops@.len() == 1 + 2 * i,
            forall|j: int| 0 <= j < ops@.len() ==> #[trigger] ops@[j] == store_ops(material)[j],
        decreases 3 - i,
    {
        let base: u32 = KEY_STORE_ADDR + 16 * (i as u32);
        let lo: u64 = half(&keys[i], 0);
        let hi: u64 = half(&keys[i], 8);
        proof {
            assert(keys@[i as int]@.subrange(0, 8) =~= material.subrange(16 * i, 16 * i + 8));
            assert(keys@[i as int]@.subrange(8, 16) =~= material.subrange(16 * i + 8, 16 * i + 16));
        }
        ops.push(
            FlashOp::Write {
                offset: base,
                region_start: KEY_STORE_ADDR,
                region_end: KEY_STORE_END,
                value: lo,
            },
        );
        ops.push(
            FlashOp::Write {
                offset: base + 8,
                region_start: KEY_STORE_ADDR,
                region_end: KEY_STORE_END,
                value: hi,
            },
        );
        i = i + 1;
    }
    assert(ops@ =~= store_ops(material));
    ops
}

/// Whether the words read from flash are blank, so that a start needs fresh
/// key material.
pub fn is_erased(words: &[u32]) -> (b: bool)
    requires
        words@.len() == KEY_STORE_WORDS,
    ensures
        b == (loaded(words@) is None),
{
    load(words).is_none()
}

/// The key material of the device and the operations that save it, from the
/// words read from flash and from fresh material. Without blank flash there
/// is nothing to save, and the fresh material is not used.
pub fn init(words: &[u32], fresh: [AesBlock; 3]) -> (start: ([AesBlock; 3], Vec<FlashOp>))
    requires
        words@.len() == KEY_STORE_WORDS,
    ensures
        (config::material(start.0@), start.1@) == started(words@, config::material(fresh@)),
{
    match load(words) {
        Some(keys) => (keys, Vec::new()),
        None => {
            let ops = store(&fresh);
            (fresh, ops)
        },
    }
}

/// The operation of a save that follows `done` others.
pub open spec fn next_of_store(ops: Seq<FlashOp>, done: int, last_ok: bool) -> Option<FlashOp> {
    if done < ops.len() && (done == 0 || last_ok) {
        Some(ops[done])
    } else {
        None
    }
}

/// The operation of the save at the first start that follows `done` others.
pub open spec fn next_of_init(ops: Seq<FlashOp>, done: int, last_ok: bool) -> Option<FlashOp> {
    if done < ops.len() && (done != 1 || last_ok) {
        Some(ops[done])
    } else {
        None
    }
}

/// The next operation of a save after `done` operations, the last of which
/// succeeded or not. A save stops at the first failure.
pub fn next_store_op(ops: &Vec<FlashOp>, done: usize, last_ok: bool) -> (op: Option<FlashOp>)
    ensures
        op == next_of_store(ops@, done as int, last_ok),
{
    if done < ops.len() && (done == 0 || last_ok) {
        Some(ops[done])
    } else {
        None
    }
}

/// The next operation of the save at the first start. It stops if the erase
/// fails; a failed write does not stop it.
pub fn next_init_op(ops: &Vec<FlashOp>, done: usize, last_ok: bool) -> (op: Option<FlashOp>)
    ensures
        op == next_of_init(ops@, done as int, last_ok),
{
    if done < ops.len() && (done != 1 || last_ok) {
        Some(ops[done])
    } else {
        None
    }
}

/// Saving key material only uses operations that the driver accepts.
pub proof fn law_saving_is_never_refused(material: Seq<u8>, i: int)
    requires
        material.len() == KEY_STORE_SIZE,
        0 <= i < STORE_OPS,
    ensures
        flash::acceptable(store_ops(material)[i]),
{
}

/// After the first `n` operations of a save the first `n - 1` double words
/// are in flash.
proof fn lemma_words_are_saved(mem: flash::Memory, material: Seq<u8>, n: nat)
    requires
        material.len() == KEY_STORE_SIZE,
        1 <= n <= STORE_OPS,
    ensures
        ({
            let after = flash::all_carried_out(mem, store_ops(material).take(n as int));
            forall|i: int|
                0 <= i < 8 * (n - 1) ==> #[trigger] after(KEY_STORE_ADDR + i) == material[i]
        }),
    decreases n,
{
    let ops = store_ops(material).take(n as int);
    if n > 1 {
        lemma_words_are_saved(mem, material, (n - 1) as nat);
        assert(ops.drop_last() =~= store_ops(material).take(n - 1));
        let k = n - 2;
        let word = material.subrange(8 * k, 8 * k + 8);
        bytes::lemma_le_u64_round_trip(word);
        let before = flash::all_carried_out(mem, ops.drop_last());
        let after = flash::all_carried_out(mem, ops);
        assert(ops.last() == word_write(material, k));
        assert forall|i: int| 0 <= i < 8 * (n - 1) implies #[trigger] after(KEY_STORE_ADDR + i)
            == material[i] by {
            if i >= 8 * k {
                assert(word[i - 8 * k] == material[i]);
            } else {
                assert(before(KEY_STORE_ADDR + i) == material[i]);
            }
        }
    }
}

/// Words read from flash that holds the material hold the material.
proof fn lemma_material_is_read(mem: flash::Memory, material: Seq<u8>)
    requires
        material.len() == KEY_STORE_SIZE,
        forall|i: int| 0 <= i < KEY_STORE_SIZE ==> #[trigger] mem(KEY_STORE_ADDR + i) == material[i],
    ensures
        ({
            let words = laws::memory_words(mem, KEY_STORE_ADDR as int, KEY_STORE_SIZE as u32);
            words.len() == KEY_STORE_WORDS && ota::words_bytes(words) == material
        }),
{
    laws::lemma_memory_words_bytes(
        mem,
        KEY_STORE_ADDR as int,
        KEY_STORE_SIZE as u32,
        material,
    );
    let words = laws::memory_words(mem, KEY_STORE_ADDR as int, KEY_STORE_SIZE as u32);
    let all = ota::words_bytes(words);
    assert(all.len() == KEY_STORE_SIZE);
    assert(all.take(KEY_STORE_SIZE as int) =~= all);
}

/// A start returns the stored bytes and leaves the flash alone if any of them
/// is not blank. Only blank flash takes the fresh material, which is stored and
/// returned.
pub proof fn law_start_keeps_stored_keys(mem: flash::Memory, fresh: Seq<u8>)
    ensures
        start_on(mem, fresh) == if is_blank(kept_in(mem)) {
            (fresh, flash::all_carried_out(mem, store_ops(fresh)))
        } else {
            (kept_in(mem), mem)
        },
{
    lemma_material_is_read(mem, kept_in(mem));
}

/// A later start gives the key material of the first again, whatever fresh
/// material it is handed, and leaves the flash alone, if the material does not
/// look like blank flash.
pub proof fn law_later_starts_give_the_same_keys(
    mem: flash::Memory,
    first: Seq<u8>,
    second: Seq<u8>,
)
    requires
        first.len() == KEY_STORE_SIZE,
        !is_blank(start_on(mem, first).0),
    ensures
        start_on(start_on(mem, first).1, second) == start_on(mem, first),
{
    law_start_keeps_stored_keys(mem, first);
    if is_blank(kept_in(mem)) {
        law_saved_keys_are_kept(mem, first, second);
    } else {
        law_start_keeps_stored_keys(mem, second);
    }
}

/// Key material that was saved, at a start or later, is what the next start
/// returns without touching the flash, if it does not look like blank flash.
pub proof fn law_saved_keys_are_kept(mem: flash::Memory, material: Seq<u8>, fresh: Seq<u8>)
    requires
        material.len() == KEY_STORE_SIZE,
        !is_blank(material),
    ensures
        ({
            let after = flash::all_carried_out(mem, store_ops(material));
            start_on(after, fresh) == (material, after)
        }),
{
    law_saved_key_material_is_loaded(mem, material);
}

/// Key material that was saved is what the next start loads, if it does not
/// look like blank flash.
pub proof fn law_saved_key_material_is_loaded(mem: flash::Memory, material: Seq<u8>)
    requires
        material.len() == KEY_STORE_SIZE,
        !is_blank(material),
    ensures
        ({
            let after = flash::all_carried_out(mem, store_ops(material));
            let words = laws::memory_words(after, KEY_STORE_ADDR as int, KEY_STORE_SIZE as u32);
            words.len() == KEY_STORE_WORDS && loaded(words) == Some(material)
        }),
{
    assert(store_ops(material).take(STORE_OPS as int) =~= store_ops(material));
    lemma_words_are_saved(mem, material, STORE_OPS as nat);
    lemma_material_is_read(flash::all_carried_out(mem, store_ops(material)), material);
}

/// A key is four random words one after the other, least significant byte first;
/// if one of them did not come in time it is all zero.
pub proof fn law_key_holds_the_random_words(words: Seq<Option<u32>>, i: int)
    requires
        words.len() == 4,
        0 <= i < 16,
    ensures
        key_of(words).len() == 16,
        key_of(words)[i] == if words[0] is None || words[1] is None || words[2] is None || words[3]
            is None {
            0
        } else {
            bytes::u32_le(words[i / 4]->0)[i % 4]
        },
{
}

/// Saving puts the material at 0x0801_F800 and leaves everything outside the
/// page from there to 0x0802_0000 as it was.
pub proof fn law_saving_stays_in_its_page(mem: flash::Memory, material: Seq<u8>)
    requires
        material.len() == 48,
    ensures
        ({
            let after = flash::all_carried_out(mem, store_ops(material));
            &&& forall|i: int| 0 <= i < 48 ==> #[trigger] after(0x0801_F800 + i) == material[i]
            &&& forall|a: int|
                a < 0x0801_F800 || a >= 0x0802_0000 ==> #[trigger] after(a) == mem(a)
        }),
{
    let ops = store_ops(material);
    assert(ops.take(STORE_OPS as int) =~= ops);
    lemma_words_are_saved(mem, material, STORE_OPS as nat);
    lemma_page_is_kept_to(mem, material, STORE_OPS as nat);
    let after = flash::all_carried_out(mem, ops);
    assert forall|i: int| 0 <= i < 48 implies #[trigger] after(0x0801_F800 + i) == material[i] by {
        assert(after(KEY_STORE_ADDR + i) == material[i]);
    }
}

proof fn lemma_page_is_kept_to(mem: flash::Memory, material: Seq<u8>, n: nat)
    requires
        material.len() == KEY_STORE_SIZE,
        n <= STORE_OPS,
    ensures
        ({
            let after = flash::all_carried_out(mem, store_ops(material).take(n as int));
            forall|a: int| a < 0x0801_F800 || a >= 0x0802_0000 ==> #[trigger] after(a) == mem(a)
        }),
    decreases n,
{
    let ops = store_ops(material).take(n as int);
    if n > 0 {
        lemma_page_is_kept_to(mem, material, (n - 1) as nat);
        assert(ops.drop_last() =~= store_ops(material).take(n - 1));
        let before = flash::all_carried_out(mem, ops.drop_last());
        let after = flash::all_carried_out(mem, ops);
        assert(ops.last() == store_ops(material)[n - 1]);
        assert forall|a: int| a < 0x0801_F800 || a >= 0x0802_0000 implies #[trigger] after(a)
            == mem(a) by {
            assert(before(a) == mem(a));
        }
    } else {
        assert(ops =~= Seq::<FlashOp>::empty());
    }
}

/// While all goes well both saves carry out every operation, in order, and then
/// end. After a failure a save ends at once; the one at the first start only after
/// a failed erase. Without operations nothing is carried out.
pub proof fn law_saves_run_in_order(ops: Seq<FlashOp>, done: int)
    requires
        0 <= done <= ops.len(),
    ensures
        done < ops.len() ==> next_of_store(ops, done, true) == Some(ops[done]),
        done < ops.len() ==> next_of_init(ops, done, true) == Some(ops[done]),
        next_of_store(ops, ops.len() as int, true) is None,
        next_of_init(ops, ops.len() as int, true) is None,
        done > 0 ==> next_of_store(ops, done, false) is None,
        next_of_init(ops, 1, false) is None,
        1 < done < ops.len() ==> next_of_init(ops, done, false) == Some(ops[done]),
        next_of_store(Seq::empty(), 0, true) is None,
        next_of_init(Seq::empty(), 0, true) is None,
{
}

/// At a start, 48 times 0xFF at 0x0801_F800 are replaced by the fresh material,
/// which is returned. With a single other byte there, what is there is returned,
/// and the flash is left alone.
pub proof fn law_only_blank_flash_takes_fresh_keys(mem: flash::Memory, fresh: Seq<u8>, i: int)
    requires
        fresh.len() == 48,
    ensures
        (forall|j: int| 0 <= j < 48 ==> #[trigger] mem(0x0801_F800 + j) == 0xFF) ==> {
            &&& start_on(mem, fresh).0 == fresh
            &&& forall|j: int|
                0 <= j < 48 ==> #[trigger] start_on(mem, fresh).1(0x0801_F800 + j) == fresh[j]
        },
        0 <= i < 48 && mem(0x0801_F800 + i) != 0xFF ==> {
            &&& start_on(mem, fresh).0.len() == 48
            &&& forall|j: int|
                0 <= j < 48 ==> #[trigger] start_on(mem, fresh).0[j] == mem(0x0801_F800 + j)
            &&& start_on(mem, fresh).1 == mem
        },
{
    law_start_keeps_stored_keys(mem, fresh);
    law_saving_stays_in_its_page(mem, fresh);
    let kept = kept_in(mem);
    if forall|j: int| 0 <= j < 48 ==> #[trigger] mem(0x0801_F800 + j) == 0xFF {
        assert forall|j: int| 0 <= j < kept.len() implies #[trigger] kept[j] == 0xFF by {
            assert(mem(0x0801_F800 + j) == 0xFF);
        }
        assert(is_blank(kept));
    }
    if 0 <= i < 48 && mem(0x0801_F800 + i) != 0xFF {
        assert(kept[i] == mem(0x0801_F800 + i));
        assert(!is_blank(kept));
    }
}

} // verus!
