//! What an update does as a whole, from the first request to the reset.

use vstd::prelude::*;

use crate::bytes;
use crate::drivers::flash;
use crate::drivers::flash::FlashOp;
use crate::ota;
use crate::ota::crc;
use crate::ota::OtaModel;
use crate::ota::StepModel;
use crate::ota::DFU_END;
use crate::ota::DFU_SIZE;
use crate::ota::DFU_START;
use crate::ota::SID_REQUEST_TRANSFER_EXIT;
use crate::ota::STATE_ADDR;
use crate::ota::STATE_END;
use crate::ota::SWAP_MAGIC;
use crate::uds::nrc::Nrc;

verus! {

/// The words that `len` bytes from `start` fill.
pub open spec fn memory_words(mem: flash::Memory, start: int, len: u32) -> Seq<u32> {
    Seq::new(
        ota::words_for(len) as nat,
        |i: int|
            bytes::le_u32(
                seq![
                    mem(start + 4 * i),
                    mem(start + 4 * i + 1),
                    mem(start + 4 * i + 2),
                    mem(start + 4 * i + 3),
                ],
            ),
    )
}

/// Carries out the flash operations that `step` leads to, without error,
/// until there is a response: the machine, the response and the memory.
/// `fuel` bounds the number of operations.
pub open spec fn settled(o: OtaModel, step: StepModel, mem: flash::Memory, fuel: nat) -> (
    OtaModel,
    StepModel,
    flash::Memory,
)
    decreases fuel,
{
    match step {
        StepModel::Reply(_) => (o, step, mem),
        StepModel::Flash(op) => if fuel == 0 {
            (o, step, mem)
        } else {
            let after = flash::carried_out(mem, op);
            let next = match op {
                FlashOp::Read { start, len } => o.read_done(memory_words(mem, start as int, len)),
                _ => o.done(true),
            };
            settled(next.0, next.1, after, (fuel - 1) as nat)
        },
    }
}

/// Payload of the request that announces an image of `size` bytes.
pub open spec fn announcement(size: u32) -> Seq<u8> {
    seq![0u8] + bytes::u32_le(size)
}

/// Payload of transfer block number `k` (from 0) of `stream`.
pub open spec fn block(stream: Seq<u8>, k: int) -> Seq<u8> {
    seq![((1 + k) % 256) as u8, stream[2 * k], stream[2 * k + 1]]
}

/// Whether `stream` is what is sent for an image of `size` bytes: the image,
/// and one more byte where the last block would otherwise be incomplete.
pub open spec fn is_stream(stream: Seq<u8>, size: u32) -> bool {
    &&& 0 < size <= DFU_SIZE
    &&& stream.len() == 2 * ((size + 1) / 2)
}

/// Machine and memory after an image of `size` bytes was announced and the
/// first `n` blocks of `stream` were sent.
pub open spec fn after_blocks(
    o: OtaModel,
    mem: flash::Memory,
    stream: Seq<u8>,
    size: u32,
    n: nat,
) -> (OtaModel, StepModel, flash::Memory)
    decreases n,
{
    if n == 0 {
        let begun = o.request_download(announcement(size));
        settled(begun.0, begun.1, mem, 1)
    } else {
        let before = after_blocks(o, mem, stream, size, (n - 1) as nat);
        let begun = before.0.transfer_data(block(stream, n - 1));
        settled(begun.0, begun.1, before.2, 1)
    }
}

/// The response to the announcement (0) or to the block with number `n`
/// (from 1).
pub open spec fn acknowledgement(n: int) -> Seq<u8> {
    if n == 0 {
        seq![0x74u8, 0x00, 0x00, 0x02]
    } else {
        seq![0x76u8, (n % 256) as u8]
    }
}

/// Machine, response and memory after an image of `size` bytes was
/// announced, all of `stream` was sent and the transfer was closed.
pub open spec fn after_download(o: OtaModel, mem: flash::Memory, stream: Seq<u8>, size: u32) -> (
    OtaModel,
    StepModel,
    flash::Memory,
) {
    let sent = after_blocks(o, mem, stream, size, (stream.len() / 2) as nat);
    let begun = sent.0.transfer_exit(Seq::empty());
    settled(begun.0, begun.1, sent.2, 5)
}

/// Whether the checksum of what was sent is that of the image.
pub open spec fn checksum_agrees(stream: Seq<u8>, size: u32) -> bool {
    crc::crc_of(crc::CRC_INIT, stream) == crc::crc_of(crc::CRC_INIT, stream.take(size as int))
}

/// `o` has received the first `n` blocks of `stream`, and `mem` holds the
/// double words that they fill.
pub open spec fn holds_blocks(
    o: OtaModel,
    mem: flash::Memory,
    stream: Seq<u8>,
    size: u32,
    n: int,
) -> bool {
    let full = 8 * (n / 4);
    &&& o.state is Receiving
    &&& o.waiting is Nothing
    &&& o.total_size == size
    &&& o.remaining == if size >= 2 * n {
        size - 2 * n
    } else {
        0
    }
    &&& o.next_block_seq == (1 + n) % 256
    &&& o.crc32 == crc::crc_of(crc::CRC_INIT, stream.take(2 * n))
    &&& o.next_offset == DFU_START + full
    &&& o.buffered == stream.subrange(full, 2 * n)
    &&& forall|i: int| 0 <= i < full ==> #[trigger] mem(DFU_START + i) == stream[i]
}

/// Whatever is asked of the flash controller is acceptable to the driver
/// and lies in the download partition or in the page of the swap mark.
pub open spec fn confined(step: StepModel) -> bool {
    step matches StepModel::Flash(op) ==> {
        &&& flash::acceptable(op)
        &&& match op {
            FlashOp::Erase { start, end } => (start == DFU_START && end == DFU_END) || (start
                == STATE_ADDR && end == STATE_END),
            FlashOp::Write { offset, .. } => (DFU_START <= offset && offset + 8 <= DFU_END) || (
            STATE_ADDR <= offset && offset + 8 <= STATE_END),
            FlashOp::Read { start, len } => start == DFU_START && len <= DFU_SIZE,
        }
    }
}

/// An update never asks for a flash operation that the driver refuses, nor
/// for one outside the download partition and the page of the swap mark.
pub proof fn law_update_stays_in_its_partition(
    o: OtaModel,
    payload: Seq<u8>,
    ok: bool,
    words: Seq<u32>,
)
    requires
        o.inv(),
    ensures
        o.ready() ==> confined(o.request_download(payload).1),
        o.ready() ==> confined(o.transfer_data(payload).1),
        o.ready() ==> confined(o.transfer_exit(payload).1),
        confined(o.done(ok).1),
        confined(o.read_done(words).1),
{
}

/// A block out of sequence, or one of the wrong length, is refused and
/// changes nothing, so that the sender can go on from the right block.
pub proof fn law_refused_block_changes_nothing(o: OtaModel, payload: Seq<u8>)
    requires
        o.inv(),
        o.ready(),
        o.state is Receiving,
        o.remaining > 0,
        payload.len() != 3 || payload[0] != o.next_block_seq,
    ensures
        o.transfer_data(payload).0 == o,
        o.transfer_data(payload).1 == StepModel::Reply(
            (if payload.len() != 3 {
                Nrc::IncorrectMessageLengthOrInvalidFormat
            } else {
                Nrc::WrongBlockSequenceNumber
            }).refusal(ota::SID_TRANSFER_DATA),
        ),
{
}

/// Once the announced size has arrived, a further block writes nothing and
/// ends the transfer.
pub proof fn law_no_block_past_the_announced_size(o: OtaModel, payload: Seq<u8>)
    requires
        o.inv(),
        o.ready(),
        o.state is Receiving,
        o.remaining == 0,
        payload.len() == 3,
    ensures
        o.transfer_data(payload).0.state is Idle,
        o.transfer_data(payload).1 == StepModel::Reply(
            Nrc::RequestOutOfRange.refusal(ota::SID_TRANSFER_DATA),
        ),
{
}

/// A reset is only ever armed by the swap mark, and the swap mark is only
/// written after the image was read back with the checksum of what arrived.
pub proof fn law_reset_needs_a_verified_image(
    o: OtaModel,
    payload: Seq<u8>,
    ok: bool,
    words: Seq<u32>,
)
    requires
        o.inv(),
        !o.reset_requested,
    ensures
        !o.request_download(payload).0.reset_requested,
        !o.transfer_data(payload).0.reset_requested,
        !o.transfer_exit(payload).0.reset_requested,
        !o.read_done(words).0.reset_requested,
        o.done(ok).0.reset_requested ==> o.waiting is MarkWrite && ok,
        o.done(ok).0.waiting is MarkWrite ==> o.waiting is MarkErase && ok,
        o.read_done(words).0.waiting is MarkErase ==> crc::crc_of(
            crc::CRC_INIT,
            ota::words_bytes(words).take(o.total_size as int),
        ) == o.crc32,
{
    let a = crc::crc_of(crc::CRC_INIT, ota::words_bytes(words).take(o.total_size as int));
    lemma_inversion_injective(a, o.crc32);
}

proof fn lemma_inversion_injective(a: u32, b: u32)
    ensures
        a ^ crc::CRC_XOROUT == b ^ crc::CRC_XOROUT <==> a == b,
{
    assert(a ^ 0xFFFF_FFFFu32 == b ^ 0xFFFF_FFFFu32 <==> a == b) by (bit_vector);
}

/// The bytes of words read from memory are the bytes of memory.
pub proof fn lemma_memory_words_bytes(mem: flash::Memory, start: int, len: u32, image: Seq<u8>)
    requires
        image.len() == len,
        forall|i: int| 0 <= i < len ==> #[trigger] mem(start + i) == image[i],
    ensures
        ota::words_bytes(memory_words(mem, start, len)).take(len as int) == image,
{
    let words = memory_words(mem, start, len);
    let all = ota::words_bytes(words);
    assert forall|i: int| 0 <= i < len implies all[i] == image[i] by {
        let k = i / 4;
        let quad = seq![
            mem(start + 4 * k),
            mem(start + 4 * k + 1),
            mem(start + 4 * k + 2),
            mem(start + 4 * k + 3),
        ];
        bytes::lemma_le_u32_round_trip(quad);
        assert(words[k] == bytes::le_u32(quad));
        assert(all[i] == quad[i % 4]);
        assert(4 * k + i % 4 == i);
        assert(quad[i % 4] == mem(start + i));
    }
    assert(all.take(len as int) =~= image);
}

/// One more block, in order, with a controller that works.
#[verifier::rlimit(30)]
proof fn lemma_block_step(o: OtaModel, mem: flash::Memory, stream: Seq<u8>, size: u32, n: int)
    requires
        holds_blocks(o, mem, stream, size, n),
        is_stream(stream, size),
        0 <= n,
        2 * n + 2 <= stream.len(),
    ensures
        ({
            let begun = o.transfer_data(block(stream, n));
            let end = settled(begun.0, begun.1, mem, 1);
            &&& holds_blocks(end.0, end.2, stream, size, n + 1)
            &&& end.1 == StepModel::Reply(seq![0x76u8, block(stream, n)[0]])
            &&& end.0.reset_requested == o.reset_requested
        }),
{
    let payload = block(stream, n);
    let b0 = stream[2 * n];
    let b1 = stream[2 * n + 1];
    let next = o.accepted(b0, b1);
    let full = 8 * (n / 4);
    assert(stream.take(2 * n + 2) =~= stream.take(2 * n) + seq![b0, b1]);
    crc::law_crc_of_concatenation(crc::CRC_INIT, stream.take(2 * n), seq![b0, b1]);
    assert(next.buffered =~= stream.subrange(full, 2 * n + 2));
    let begun = o.transfer_data(payload);
    reveal_with_fuel(settled, 2);
    if n % 4 == 3 {
        assert(next.buffered.len() == 8);
        let value = bytes::le_u64(next.buffered);
        bytes::lemma_le_u64_round_trip(next.buffered);
        let end = settled(begun.0, begun.1, mem, 1);
        assert(8 * ((n + 1) / 4) == full + 8);
        assert(end.0.buffered =~= stream.subrange(full + 8, 2 * n + 2));
        assert forall|i: int| 0 <= i < full + 8 implies #[trigger] end.2(DFU_START + i)
            == stream[i] by {
            assert(end.2 == flash::programmed(mem, o.next_offset as int, value));
            if i >= full {
                assert(bytes::u64_le(value)[i - full] == next.buffered[i - full]);
            }
        }
    } else {
        assert((n + 1) / 4 == n / 4);
    }
}

/// The announcement of a stream, with a controller that works.
proof fn lemma_announcement_settles(o: OtaModel, mem: flash::Memory, stream: Seq<u8>, size: u32)
    requires
        o.inv(),
        o.ready(),
        o.state is Idle,
        is_stream(stream, size),
    ensures
        ({
            let end = after_blocks(o, mem, stream, size, 0);
            &&& holds_blocks(end.0, end.2, stream, size, 0)
            &&& end.0.reset_requested == o.reset_requested
            &&& end.1 == StepModel::Reply(acknowledgement(0))
        }),
{
    let payload = announcement(size);
    assert(payload.skip(1) =~= bytes::u32_le(size));
    bytes::lemma_u32_le_round_trip(size);
    let begun = o.request_download(payload);
    let op = FlashOp::Erase { start: DFU_START, end: DFU_END };
    assert(begun == o.asking(ota::Waiting::Erase { size }, op));
    let after = flash::carried_out(mem, op);
    let end = begun.0.done(true);
    assert(settled(end.0, end.1, after, 0) == (end.0, end.1, after));
    assert(settled(begun.0, begun.1, mem, 1) == (end.0, end.1, after));
    assert(end.0.buffered =~= stream.subrange(0, 0));
    assert(stream.take(0) =~= Seq::<u8>::empty());
}

/// After the request and `n` blocks in order, exactly those are held.
proof fn lemma_blocks_are_held(
    o: OtaModel,
    mem: flash::Memory,
    stream: Seq<u8>,
    size: u32,
    n: nat,
)
    requires
        o.inv(),
        o.ready(),
        o.state is Idle,
        is_stream(stream, size),
        2 * n <= stream.len(),
    ensures
        ({
            let end = after_blocks(o, mem, stream, size, n);
            &&& holds_blocks(end.0, end.2, stream, size, n as int)
            &&& end.0.reset_requested == o.reset_requested
            &&& end.1 == StepModel::Reply(acknowledgement(n as int))
        }),
    decreases n,
{
    if n == 0 {
        lemma_announcement_settles(o, mem, stream, size);
    } else {
        lemma_blocks_are_held(o, mem, stream, size, (n - 1) as nat);
        let before = after_blocks(o, mem, stream, size, (n - 1) as nat);
        lemma_block_step(before.0, before.2, stream, size, n - 1);
    }
}

/// Setting the swap mark, with a controller that works.
proof fn lemma_mark_settles(o: OtaModel, mem: flash::Memory, fuel: nat)
    requires
        o.waiting is MarkErase,
        fuel >= 2,
    ensures
        ({
            let op = FlashOp::Erase { start: STATE_ADDR, end: STATE_END };
            let end = settled(o, StepModel::Flash(op), mem, fuel);
            &&& end.1 == StepModel::Reply(seq![0x77u8])
            &&& end.0.state is Done
            &&& end.0.reset_requested
            &&& end.2(STATE_ADDR as int) == SWAP_MAGIC
            &&& forall|a: int| a >= DFU_START ==> #[trigger] end.2(a) == mem(a)
        }),
{
    let m1 = flash::erased(mem, STATE_ADDR as int, STATE_END as int);
    let marking = o.done(true);
    let m2 = flash::programmed(m1, STATE_ADDR as int, SWAP_MAGIC as u64);
    let finished = marking.0.done(true);
    let rest = (fuel - 2) as nat;
    assert(settled(finished.0, finished.1, m2, rest) == (finished.0, finished.1, m2));
    assert(settled(marking.0, marking.1, m1, rest + 1) == (finished.0, finished.1, m2));
    assert(bytes::u64_le(SWAP_MAGIC as u64)[0] == SWAP_MAGIC);
    let op = FlashOp::Erase { start: STATE_ADDR, end: STATE_END };
    assert(settled(o, StepModel::Flash(op), mem, fuel) == (finished.0, finished.1, m2));
    assert forall|a: int| a >= DFU_START implies #[trigger] m2(a) == mem(a) by {
        assert(flash::page(a) >= flash::page(DFU_START as int));
    }
}

/// How a transfer ends whose stream is in flash.
spec fn closed(
    before: OtaModel,
    end: (OtaModel, StepModel, flash::Memory),
    stream: Seq<u8>,
    size: u32,
) -> bool {
    if checksum_agrees(stream, size) {
        &&& end.1 == StepModel::Reply(seq![0x77u8])
        &&& end.0.state is Done
        &&& end.0.reset_requested
        &&& end.2(STATE_ADDR as int) == SWAP_MAGIC
        &&& forall|i: int| 0 <= i < stream.len() ==> #[trigger] end.2(DFU_START + i) == stream[i]
    } else {
        &&& end.1 == StepModel::Reply(
            Nrc::GeneralProgrammingFailure.refusal(SID_REQUEST_TRANSFER_EXIT),
        )
        &&& end.0.state is Idle
        &&& end.0.reset_requested == before.reset_requested
    }
}

/// Closing a transfer whose stream is in flash, with a controller that
/// works.
proof fn lemma_read_back_settles(
    o: OtaModel,
    mem: flash::Memory,
    stream: Seq<u8>,
    size: u32,
    fuel: nat,
)
    requires
        is_stream(stream, size),
        o.remaining == 0,
        o.total_size == size,
        o.crc32 == crc::crc_of(crc::CRC_INIT, stream),
        forall|i: int| 0 <= i < stream.len() ==> #[trigger] mem(DFU_START + i) == stream[i],
        fuel >= 3,
    ensures
        closed(
            o,
            settled(o.flush_done(true).0, o.flush_done(true).1, mem, fuel),
            stream,
            size,
        ),
{
    let image = stream.take(size as int);
    let begun = o.flush_done(true);
    lemma_memory_words_bytes(mem, DFU_START as int, size, image);
    let checked = begun.0.read_done(memory_words(mem, DFU_START as int, size));
    lemma_inversion_injective(crc::crc_of(crc::CRC_INIT, image), o.crc32);
    assert(settled(begun.0, begun.1, mem, fuel) == settled(
        checked.0,
        checked.1,
        mem,
        (fuel - 1) as nat,
    ));
    if checksum_agrees(stream, size) {
        lemma_mark_settles(checked.0, mem, (fuel - 1) as nat);
    }
}

/// Writing the incomplete last double word of a stream puts all of it in
/// flash.
proof fn lemma_flush_completes(o: OtaModel, mem: flash::Memory, stream: Seq<u8>, size: u32, n: int)
    requires
        is_stream(stream, size),
        stream.len() == 2 * n,
        holds_blocks(o, mem, stream, size, n),
        o.buffered.len() > 0,
    ensures
        ({
            let word = bytes::le_u64(ota::padded(o.buffered));
            let after = flash::programmed(mem, o.next_offset as int, word);
            forall|i: int| 0 <= i < stream.len() ==> #[trigger] after(DFU_START + i) == stream[i]
        }),
{
    let full = 8 * (n / 4);
    let padded = ota::padded(o.buffered);
    bytes::lemma_le_u64_round_trip(padded);
    let after = flash::programmed(mem, o.next_offset as int, bytes::le_u64(padded));
    assert forall|i: int| 0 <= i < stream.len() implies #[trigger] after(DFU_START + i)
        == stream[i] by {
        if i >= full {
            assert(padded[i - full] == stream[i]);
        }
    }
}

/// Closing a transfer after all blocks of a stream, with a controller that
/// works.
#[verifier::spinoff_prover]
proof fn lemma_exit_settles(o: OtaModel, mem: flash::Memory, stream: Seq<u8>, size: u32, n: int)
    requires
        is_stream(stream, size),
        stream.len() == 2 * n,
        holds_blocks(o, mem, stream, size, n),
    ensures
        ({
            let begun = o.transfer_exit(Seq::empty());
            closed(o, settled(begun.0, begun.1, mem, 5), stream, size)
        }),
{
    assert(stream.take(2 * n) =~= stream);
    let begun = o.transfer_exit(Seq::empty());
    if o.buffered.len() > 0 {
        lemma_flush_completes(o, mem, stream, size, n);
        let word = bytes::le_u64(ota::padded(o.buffered));
        let after = flash::programmed(mem, o.next_offset as int, word);
        let reading = begun.0.flush_done(true);
        assert(settled(begun.0, begun.1, mem, 5) == settled(reading.0, reading.1, after, 4));
        lemma_read_back_settles(begun.0, after, stream, size, 4);
    } else {
        assert(8 * (n / 4) == stream.len());
        lemma_read_back_settles(o, mem, stream, size, 5);
    }
}

/// A whole download, with a controller that works.
proof fn lemma_download_closes(o: OtaModel, mem: flash::Memory, stream: Seq<u8>, size: u32)
    requires
        o.inv(),
        o.ready(),
        o.state is Idle,
        is_stream(stream, size),
    ensures
        closed(o, after_download(o, mem, stream, size), stream, size),
{
    let n = (stream.len() / 2) as nat;
    lemma_blocks_are_held(o, mem, stream, size, n);
    let sent = after_blocks(o, mem, stream, size, n);
    lemma_exit_settles(sent.0, sent.2, stream, size, n as int);
}

/// While an image is sent in order, with a flash controller that works, the
/// announcement and every block get their positive response.
pub proof fn law_blocks_are_acknowledged(
    o: OtaModel,
    mem: flash::Memory,
    stream: Seq<u8>,
    size: u32,
    n: nat,
)
    requires
        o.inv(),
        o.ready(),
        o.state is Idle,
        is_stream(stream, size),
        2 * n <= stream.len(),
    ensures
        after_blocks(o, mem, stream, size, n).1 == StepModel::Reply(acknowledgement(n as int)),
{
    lemma_blocks_are_held(o, mem, stream, size, n);
}

/// An image that is announced, sent block by block in order and closed, with
/// a flash controller that works, ends in the positive response, with the
/// image in the download partition, the swap mark set and the reset armed.
/// The checksum runs over all that is sent: where an image of odd size needs
/// one more byte, that byte must leave the checksum as it was.
pub proof fn law_complete_download_is_installed(
    o: OtaModel,
    mem: flash::Memory,
    stream: Seq<u8>,
    size: u32,
)
    requires
        o.inv(),
        o.ready(),
        o.state is Idle,
        is_stream(stream, size),
        size % 2 == 0 || checksum_agrees(stream, size),
    ensures
        ({
            let end = after_download(o, mem, stream, size);
            &&& end.1 == StepModel::Reply(seq![0x77u8])
            &&& end.0.state is Done
            &&& end.0.reset_requested
            &&& end.2(STATE_ADDR as int) == SWAP_MAGIC
            &&& forall|i: int| 0 <= i < size ==> #[trigger] end.2(DFU_START + i) == stream[i]
        }),
{
    lemma_download_closes(o, mem, stream, size);
    if size % 2 == 0 {
        assert(stream.take(size as int) =~= stream);
    }
}

/// An image of odd size whose last block changes the checksum is refused
/// when the transfer is closed, and nothing is armed.
pub proof fn law_filled_up_image_is_refused(
    o: OtaModel,
    mem: flash::Memory,
    stream: Seq<u8>,
    size: u32,
)
    requires
        o.inv(),
        o.ready(),
        o.state is Idle,
        is_stream(stream, size),
        !checksum_agrees(stream, size),
    ensures
        ({
            let end = after_download(o, mem, stream, size);
            &&& end.1 == StepModel::Reply(
                Nrc::GeneralProgrammingFailure.refusal(SID_REQUEST_TRANSFER_EXIT),
            )
            &&& end.0.state is Idle
            &&& end.0.reset_requested == o.reset_requested
        }),
{
    lemma_download_closes(o, mem, stream, size);
}

/// A transfer that is closed more than seven bytes short is refused and
/// given up, whatever the flash controller says of the last double word.
pub proof fn law_short_transfer_is_refused(o: OtaModel, ok: bool)
    requires
        o.inv(),
        o.state is Receiving,
        o.remaining > 7,
    ensures
        ({
            let exit = o.transfer_exit(Seq::empty());
            let end = if exit.0.waiting is Flush {
                exit.0.done(ok)
            } else {
                exit
            };
            &&& end.0.state is Idle
            &&& end.0.reset_requested == o.reset_requested
            &&& end.1 == StepModel::Reply(
                Nrc::GeneralProgrammingFailure.refusal(SID_REQUEST_TRANSFER_EXIT),
            )
        }),
{
}

/// If a single byte of the image reads back other than it was sent, the
/// transfer is refused and given up, and nothing is armed.
pub proof fn law_corrupted_image_is_refused(
    o: OtaModel,
    image: Seq<u8>,
    words: Seq<u32>,
    i: int,
    byte: u8,
)
    requires
        o.inv(),
        o.waiting is ReadBack,
        o.total_size == image.len(),
        o.crc32 == crc::crc_of(crc::CRC_INIT, image),
        0 <= i < image.len(),
        byte != image[i],
        ota::words_bytes(words).take(o.total_size as int) == image.update(i, byte),
    ensures
        o.read_done(words).0.state is Idle,
        o.read_done(words).0.reset_requested == o.reset_requested,
        o.read_done(words).1 == StepModel::Reply(
            Nrc::GeneralProgrammingFailure.refusal(SID_REQUEST_TRANSFER_EXIT),
        ),
{
    crc::law_crc_detects_a_changed_byte(crc::CRC_INIT, image, i, byte);
    lemma_inversion_injective(
        crc::crc_of(crc::CRC_INIT, ota::words_bytes(words).take(o.total_size as int)),
        o.crc32,
    );
}

/// 0x34: an image of 1 to 51200 bytes is announced by 0x00 and its size, least
/// significant byte first, while no download is going on; the download partition
/// is then erased. Everything else is refused and changes nothing.
pub proof fn law_announcement(o: OtaModel, payload: Seq<u8>)
    requires
        o.ready(),
    ensures
        ({
            let size = payload[1] + 0x100 * payload[2] + 0x1_0000 * payload[3] + 0x100_0000
                * payload[4];
            let after = o.request_download(payload);
            if payload.len() != 5 || payload[0] != 0 {
                after == (o, StepModel::Reply(seq![0x7Fu8, 0x34, 0x13]))
            } else if size == 0 || size > 51200 {
                after == (o, StepModel::Reply(seq![0x7Fu8, 0x34, 0x31]))
            } else if !(o.state is Idle) {
                after == (o, StepModel::Reply(seq![0x7Fu8, 0x34, 0x22]))
            } else {
                &&& after.0 == (OtaModel { waiting: ota::Waiting::Erase { size: size as u32 }, ..o })
                &&& after.1 == StepModel::Flash(
                    FlashOp::Erase { start: 0x0801_3000, end: 0x0801_F800 },
                )
            }
        }),
{
    if payload.len() == 5 {
        let s = payload.skip(1);
        assert(s[0] == payload[1] && s[1] == payload[2] && s[2] == payload[3] && s[3]
            == payload[4]);
    }
}

/// 0x36: a block is taken while an image is received and has bytes to come, if
/// it has the number that is due. It counts two bytes, and the next number is
/// due. Every fourth block fills a double word, which is written where the last
/// one ended; the others are acknowledged at once. A block that is not due, or
/// of the wrong length, is refused and changes nothing; one beyond the announced
/// size ends the download.
pub proof fn law_block(o: OtaModel, payload: Seq<u8>)
    requires
        o.inv(),
        o.ready(),
    ensures
        ({
            let after = o.transfer_data(payload);
            let two = seq![payload[1], payload[2]];
            let collected = o.buffered + two;
            if !(o.state is Receiving) {
                after == (o, StepModel::Reply(seq![0x7Fu8, 0x36, 0x22]))
            } else if payload.len() != 3 {
                after == (o, StepModel::Reply(seq![0x7Fu8, 0x36, 0x13]))
            } else if o.remaining == 0 {
                &&& after.1 == StepModel::Reply(seq![0x7Fu8, 0x36, 0x31])
                &&& after.0 == (OtaModel { state: ota::OtaState::Idle, ..o })
            } else if payload[0] != o.next_block_seq {
                after == (o, StepModel::Reply(seq![0x7Fu8, 0x36, 0x73]))
            } else {
                &&& after.0.next_block_seq == if payload[0] == 255 {
                    0
                } else {
                    payload[0] + 1
                }
                &&& after.0.remaining == if o.remaining == 1 {
                    0
                } else {
                    o.remaining - 2
                }
                &&& after.0.crc32 == crc::crc_of(o.crc32, two)
                &&& after.0.state is Receiving
                &&& after.0.total_size == o.total_size
                &&& after.0.next_offset == o.next_offset
                &&& after.0.reset_requested == o.reset_requested
                &&& if o.buffered.len() < 6 {
                    &&& after.0.buffered == collected
                    &&& after.0.waiting is Nothing
                    &&& after.1 == StepModel::Reply(seq![0x76u8, payload[0]])
                } else {
                    &&& after.0.buffered.len() == 0
                    &&& after.0.waiting == ota::Waiting::Block { seq: payload[0] }
                    &&& after.1 matches StepModel::Flash(
                        FlashOp::Write { offset, region_start, region_end, value },
                    ) && {
                        &&& offset == o.next_offset
                        &&& region_start == 0x0801_3000
                        &&& region_end == 0x0801_F800
                        &&& bytes::u64_le(value) == collected
                    }
                }
            }
        }),
{
    let two = seq![payload[1], payload[2]];
    let collected = o.buffered + two;
    if collected.len() == 8 {
        bytes::lemma_le_u64_round_trip(collected);
    }
}

/// 0x37 and what follows it: the bytes that do not fill a double word are
/// written, filled up with 0xFF; an image that is more than seven bytes short is
/// given up; otherwise all of it is read back from the start of the partition.
pub proof fn law_transfer_end(o: OtaModel, payload: Seq<u8>)
    requires
        o.inv(),
        o.ready(),
    ensures
        ({
            let after = o.transfer_exit(payload);
            let count = o.buffered.len();
            if !(o.state is Receiving) {
                after == (o, StepModel::Reply(seq![0x7Fu8, 0x37, 0x22]))
            } else if payload.len() != 0 {
                after == (o, StepModel::Reply(seq![0x7Fu8, 0x37, 0x13]))
            } else if count > 0 {
                &&& after.0 == (OtaModel {
                    buffered: Seq::empty(),
                    waiting: ota::Waiting::Flush,
                    ..o
                })
                &&& after.1 matches StepModel::Flash(
                    FlashOp::Write { offset, region_start, region_end, value },
                ) && {
                    &&& offset == o.next_offset
                    &&& region_start == 0x0801_3000
                    &&& region_end == 0x0801_F800
                    &&& forall|i: int|
                        0 <= i < 8 ==> #[trigger] bytes::u64_le(value)[i] == if i < count {
                            o.buffered[i]
                        } else {
                            0xFF
                        }
                }
            } else {
                after == read_back_or_give_up(o)
            }
        }),
        o.flush_done(true) == read_back_or_give_up(o),
{
    if o.buffered.len() > 0 {
        bytes::lemma_le_u64_round_trip(ota::padded(o.buffered));
    }
}

/// The machine that reads the image back, or gives up one that is more than
/// seven bytes short.
pub open spec fn read_back_or_give_up(o: OtaModel) -> (OtaModel, StepModel) {
    if o.remaining > 7 {
        (
            OtaModel { state: ota::OtaState::Idle, waiting: ota::Waiting::Nothing, ..o },
            StepModel::Reply(seq![0x7Fu8, 0x37, 0x72]),
        )
    } else {
        (
            OtaModel { waiting: ota::Waiting::ReadBack, ..o },
            StepModel::Flash(FlashOp::Read { start: 0x0801_3000, len: o.total_size }),
        )
    }
}

/// Whatever flash operation of an update fails, the service that asked for it is
/// refused with 0x72, no download is going on any more, and no reset is due that
/// was not due before.
pub proof fn law_flash_failure_ends_the_update(o: OtaModel)
    requires
        o.inv(),
        !(o.waiting is Nothing),
        !(o.waiting is ReadBack),
    ensures
        ({
            let after = o.done(false);
            let sid = if o.waiting is Erase {
                0x34u8
            } else if o.waiting is Block {
                0x36
            } else {
                0x37
            };
            &&& after.1 == StepModel::Reply(seq![0x7Fu8, sid, 0x72])
            &&& after.0.state is Idle
            &&& after.0.waiting is Nothing
            &&& after.0.reset_requested == o.reset_requested
        }),
{
}

/// After the read-back: the swap mark's page, 0x0800_6000 to 0x0800_6800, is
/// erased if what was read has the checksum of what was sent; otherwise the
/// download is given up. Then 0xF0 is written at 0x0800_6000, and only after that
/// the reset is due and `[0x77]` is answered.
pub proof fn law_swap_mark_follows_the_checksum(o: OtaModel, words: Seq<u32>)
    requires
        o.inv(),
    ensures
        ({
            let image = ota::words_bytes(words).take(o.total_size as int);
            let after = o.read_done(words);
            if crc::crc_of(0xFFFF_FFFF, image) == o.crc32 {
                after == (
                    OtaModel { waiting: ota::Waiting::MarkErase, ..o },
                    StepModel::Flash(FlashOp::Erase { start: 0x0800_6000, end: 0x0800_6800 }),
                )
            } else {
                after == (
                    OtaModel { state: ota::OtaState::Idle, waiting: ota::Waiting::Nothing, ..o },
                    StepModel::Reply(seq![0x7Fu8, 0x37, 0x72]),
                )
            }
        }),
        o.waiting is MarkErase ==> o.done(true) == (
            OtaModel { waiting: ota::Waiting::MarkWrite, ..o },
            StepModel::Flash(
                FlashOp::Write {
                    offset: 0x0800_6000,
                    region_start: 0x0800_6000,
                    region_end: 0x0800_6800,
                    value: 0xF0,
                },
            ),
        ),
        o.waiting is MarkWrite ==> o.done(true) == (
            OtaModel {
                state: ota::OtaState::Done,
                waiting: ota::Waiting::Nothing,
                reset_requested: true,
                ..o
            },
            StepModel::Reply(seq![0x77u8]),
        ),
{
    let image = ota::words_bytes(words).take(o.total_size as int);
    lemma_inversion_injective(crc::crc_of(crc::CRC_INIT, image), o.crc32);
}

/// After the erase the whole image is to come, from block 1 on, and the answer
/// is `[0x74, 0x00, 0x00, 0x02]`; after the write of a double word the next one
/// goes behind it, and the block that filled it is acknowledged.
pub proof fn law_download_goes_on(o: OtaModel)
    requires
        o.inv(),
    ensures
        o.waiting matches ota::Waiting::Erase { size } ==> o.done(true) == (
            OtaModel {
                state: ota::OtaState::Receiving,
                remaining: size,
                total_size: size,
                next_offset: 0x0801_3000,
                crc32: 0xFFFF_FFFF,
                next_block_seq: 1,
                buffered: Seq::empty(),
                waiting: ota::Waiting::Nothing,
                ..o
            },
            StepModel::Reply(seq![0x74u8, 0x00, 0x00, 0x02]),
        ),
        o.waiting matches ota::Waiting::Block { seq } ==> {
            &&& o.done(true).1 == StepModel::Reply(seq![0x76u8, seq])
            &&& o.done(true).0 == (OtaModel {
                next_offset: (o.next_offset + 8) as u32,
                waiting: ota::Waiting::Nothing,
                ..o
            })
        },
{
}

} // verus!
