//! In-application firmware update over the UDS transfer services.
//!
//! ```text
//! 0x34 RequestDownload      [0x00, size (4 bytes, little-endian)] -> [0x74, 0x00, 0x00, 0x02]
//! 0x36 TransferData         [block_seq, b0, b1]                   -> [0x76, block_seq]
//! 0x37 RequestTransferExit  []                                    -> [0x77]
//! ```
//!
//! The image goes to the download partition in double words. When all of it
//! has arrived it is read back, its checksum is compared, and the boot
//! state is marked so that the boot loader swaps the image in.
//!
//! Size and checksum of the image are not written to flash. The page at
//! 0x0801_F800 holds the key material, and in the page of the swap mark what
//! follows the mark is the boot loader's own record of the swap. The machine
//! keeps both, as `total_size` and `crc32`, until the reset.
//!
//! A handler that needs the flash controller stops with
//! [`OtaStep::Flash`]; `resume` takes the outcome and goes on.

pub mod crc;
pub mod laws;

use vstd::prelude::*;

use crate::bytes;
use crate::drivers::flash;
use crate::drivers::flash::FlashOp;
use crate::drivers::flash::FlashOutcome;
use crate::uds::nrc::Nrc;

verus! {

/// Start of the download partition.
pub const DFU_START: u32 = 0x0801_3000;

/// End of the download partition (exclusive).
pub const DFU_END: u32 = 0x0801_F800;

/// Largest image that fits the download partition.
pub const DFU_SIZE: u32 = 0xC800;

/// Where the boot loader looks for the swap mark.
pub const STATE_ADDR: u32 = 0x0800_6000;

/// End of the page that holds the swap mark.
pub const STATE_END: u32 = 0x0800_6800;

/// The swap mark.
pub const SWAP_MAGIC: u8 = 0xF0;

pub const SID_REQUEST_DOWNLOAD: u8 = 0x34;

pub const SID_TRANSFER_DATA: u8 = 0x36;

pub const SID_REQUEST_TRANSFER_EXIT: u8 = 0x37;

/// Image bytes in one transfer block.
pub const BLOCK_BYTES: u32 = 2;

/// Progress of the transfer.
#[derive(Copy, Clone, Debug, PartialEq, Eq, Structural)]
pub enum OtaState {
    Idle,
    Receiving,
    Done,
}

impl OtaState {
    /// 1 and 2 are `Receiving` and `Done`, everything else is `Idle`.
    pub fn from_u8(v: u8) -> (s: OtaState)
        ensures
            s == match v {
                1 => OtaState::Receiving,
                2 => OtaState::Done,
                _ => OtaState::Idle,
            },
    {
        match v {
            1 => OtaState::Receiving,
            2 => OtaState::Done,
            _ => OtaState::Idle,
        }
    }
}

/// The flash operation whose outcome the transfer waits for.
#[derive(Copy, Clone, Debug, PartialEq, Eq, Structural)]
pub enum Waiting {
    Nothing,
    /// Erasing the download partition for an image of `size` bytes.
    Erase { size: u32 },
    /// Writing the double word that block `seq` completed.
    Block { seq: u8 },
    /// Writing the incomplete last double word.
    Flush,
    /// Reading the image back.
    ReadBack,
    /// Erasing the page of the swap mark.
    MarkErase,
    /// Writing the swap mark.
    MarkWrite,
}

/// The transfer state machine.
pub struct Ota {
    pub state: OtaState,
    /// Image bytes still to come.
    pub remaining: u32,
    /// Image size as announced.
    pub total_size: u32,
    /// Where the next double word goes.
    pub next_offset: u32,
    /// Checksum register over the image bytes so far.
    pub crc32: u32,
    pub reset_requested: bool,
    pub next_block_seq: u8,
    /// Bytes of the double word being collected, then 0xFF.
    pub buffer: [u8; 8],
    pub buffer_len: usize,
    pub waiting: Waiting,
}

/// `Ota` with the collected bytes as a sequence.
#[verifier::ext_equal]
pub struct OtaModel {
    pub state: OtaState,
    pub remaining: u32,
    pub total_size: u32,
    pub next_offset: u32,
    pub crc32: u32,
    pub reset_requested: bool,
    pub next_block_seq: u8,
    pub buffered: Seq<u8>,
    pub waiting: Waiting,
}

/// What a handler ends with: the response, or work for the flash controller.
#[derive(Debug)]
pub enum OtaStep {
    Reply(Vec<u8>),
    Flash(FlashOp),
}

/// `OtaStep` with the response as a sequence.
#[verifier::ext_equal]
pub enum StepModel {
    Reply(Seq<u8>),
    Flash(FlashOp),
}

impl View for OtaStep {
    type V = StepModel;

    open spec fn view(&self) -> StepModel {
        match self {
            OtaStep::Reply(bytes) => StepModel::Reply(bytes@),
            OtaStep::Flash(op) => StepModel::Flash(*op),
        }
    }
}

/// `s` filled up to eight bytes with 0xFF.
pub open spec fn padded(s: Seq<u8>) -> Seq<u8> {
    s + Seq::new((8 - s.len()) as nat, |i: int| 0xFFu8)
}

/// The bytes of `words`, each word least significant byte first.
pub open spec fn words_bytes(words: Seq<u32>) -> Seq<u8> {
    Seq::new(4 * words.len(), |i: int| bytes::u32_le(words[i / 4])[i % 4])
}

/// How many words hold `len` bytes.
pub open spec fn words_for(len: u32) -> int {
    (len + 3) / 4
}

impl View for Ota {
    type V = OtaModel;

    open spec fn view(&self) -> OtaModel {
        OtaModel {
            state: self.state,
            remaining: self.remaining,
            total_size: self.total_size,
            next_offset: self.next_offset,
            crc32: self.crc32,
            reset_requested: self.reset_requested,
            next_block_seq: self.next_block_seq,
            buffered: self.buffer@.take(self.buffer_len as int),
            waiting: self.waiting,
        }
    }
}

impl OtaModel {
    pub open spec fn initial() -> OtaModel {
        OtaModel {
            state: OtaState::Idle,
            remaining: 0,
            total_size: 0,
            next_offset: 0,
            crc32: 0,
            reset_requested: false,
            next_block_seq: 1,
            buffered: Seq::empty(),
            waiting: Waiting::Nothing,
        }
    }

    /// Image bytes that have arrived.
    pub open spec fn delivered(self) -> int {
        self.total_size - self.remaining
    }

    /// Double words that have been handed to the controller and have not
    /// been accounted for in `next_offset` yet.
    pub open spec fn in_flight(self) -> int {
        if self.waiting is Block {
            8
        } else {
            0
        }
    }

    /// What holds between calls. While an image is received, the collected
    /// bytes and the write position together account for every block.
    pub open spec fn inv(self) -> bool {
        &&& self.buffered.len() < 8
        &&& self.buffered.len() % 2 == 0
        &&& match self.waiting {
            Waiting::Nothing => true,
            Waiting::Erase { size } => self.state is Idle && 0 < size <= DFU_SIZE,
            Waiting::Block { .. } => self.state is Receiving && self.buffered.len() == 0,
            _ => self.state is Receiving && self.buffered.len() == 0,
        }
        &&& self.state is Receiving ==> {
            &&& 0 < self.total_size <= DFU_SIZE
            &&& self.remaining <= self.total_size
            &&& DFU_START <= self.next_offset <= DFU_END
            &&& self.next_offset % 8 == 0
            &&& self.remaining > 0 ==> self.delivered() % 2 == 0
            &&& self.collecting() ==> self.next_offset - DFU_START + self.in_flight()
                + self.buffered.len() == 2 * ((self.delivered() + 1) / 2)
        }
    }

    /// Blocks can still arrive: the exit has not begun to flush.
    pub open spec fn collecting(self) -> bool {
        self.waiting is Nothing || self.waiting is Block
    }

    /// No flash outcome is outstanding.
    pub open spec fn ready(self) -> bool {
        self.waiting is Nothing
    }

    /// Whether `outcome` is an outcome of the operation waited for.
    pub open spec fn expects(self, outcome: FlashOutcome) -> bool {
        match self.waiting {
            Waiting::Nothing => false,
            Waiting::ReadBack => outcome matches FlashOutcome::Words(words) && words@.len()
                == words_for(self.total_size),
            _ => outcome is Done,
        }
    }

    /// This machine, no longer waiting, with a refusal of `sid`.
    pub open spec fn refused(self, sid: u8, nrc: Nrc) -> (OtaModel, StepModel) {
        (OtaModel { waiting: Waiting::Nothing, ..self }, StepModel::Reply(nrc.refusal(sid)))
    }

    /// This machine, given up and idle again, with a refusal of `sid`.
    pub open spec fn aborted(self, sid: u8, nrc: Nrc) -> (OtaModel, StepModel) {
        OtaModel { state: OtaState::Idle, ..self }.refused(sid, nrc)
    }

    /// This machine waiting for `op`.
    pub open spec fn asking(self, waiting: Waiting, op: FlashOp) -> (OtaModel, StepModel) {
        (OtaModel { waiting, ..self }, StepModel::Flash(op))
    }

    /// RequestDownload up to the erase of the partition.
    pub open spec fn request_download(self, payload: Seq<u8>) -> (OtaModel, StepModel) {
        let size = bytes::le_u32(payload.skip(1));
        if payload.len() != 5 || payload[0] != 0 {
            self.refused(SID_REQUEST_DOWNLOAD, Nrc::IncorrectMessageLengthOrInvalidFormat)
        } else if size == 0 || size > DFU_SIZE {
            self.refused(SID_REQUEST_DOWNLOAD, Nrc::RequestOutOfRange)
        } else if self.state != OtaState::Idle {
            self.refused(SID_REQUEST_DOWNLOAD, Nrc::ConditionsNotCorrect)
        } else {
            self.asking(
                Waiting::Erase { size },
                FlashOp::Erase { start: DFU_START, end: DFU_END },
            )
        }
    }

    /// RequestDownload after the erase.
    pub open spec fn erase_done(self, size: u32, ok: bool) -> (OtaModel, StepModel) {
        if !ok {
            self.refused(SID_REQUEST_DOWNLOAD, Nrc::GeneralProgrammingFailure)
        } else {
            (
                OtaModel {
                    state: OtaState::Receiving,
                    remaining: size,
                    total_size: size,
                    next_offset: DFU_START,
                    crc32: crc::CRC_INIT,
                    next_block_seq: 1,
                    buffered: Seq::empty(),
                    waiting: Waiting::Nothing,
                    ..self
                },
                StepModel::Reply(seq![0x74u8, 0x00, 0x00, 0x02]),
            )
        }
    }

    /// This machine with one more block of two bytes.
    pub open spec fn accepted(self, b0: u8, b1: u8) -> OtaModel {
        OtaModel {
            next_block_seq: ((self.next_block_seq + 1) % 256) as u8,
            crc32: crc::crc_of(self.crc32, seq![b0, b1]),
            remaining: if self.remaining >= BLOCK_BYTES {
                (self.remaining - BLOCK_BYTES) as u32
            } else {
                0
            },
            buffered: self.buffered + seq![b0, b1],
            ..self
        }
    }

    /// TransferData up to the write of a completed double word.
    pub open spec fn transfer_data(self, payload: Seq<u8>) -> (OtaModel, StepModel) {
        if self.state != OtaState::Receiving {
            self.refused(SID_TRANSFER_DATA, Nrc::ConditionsNotCorrect)
        } else if payload.len() != 3 {
            self.refused(SID_TRANSFER_DATA, Nrc::IncorrectMessageLengthOrInvalidFormat)
        } else if self.remaining == 0 {
            self.aborted(SID_TRANSFER_DATA, Nrc::RequestOutOfRange)
        } else if payload[0] != self.next_block_seq {
            self.refused(SID_TRANSFER_DATA, Nrc::WrongBlockSequenceNumber)
        } else {
            let next = self.accepted(payload[1], payload[2]);
            if next.buffered.len() == 8 {
                OtaModel { buffered: Seq::empty(), ..next }.asking(
                    Waiting::Block { seq: payload[0] },
                    FlashOp::Write {
                        offset: self.next_offset,
                        region_start: DFU_START,
                        region_end: DFU_END,
                        value: bytes::le_u64(next.buffered),
                    },
                )
            } else {
                (next, StepModel::Reply(seq![0x76u8, payload[0]]))
            }
        }
    }

    /// TransferData after the write.
    pub open spec fn block_done(self, seq: u8, ok: bool) -> (OtaModel, StepModel) {
        if !ok {
            self.aborted(SID_TRANSFER_DATA, Nrc::GeneralProgrammingFailure)
        } else {
            (
                OtaModel {
                    next_offset: (self.next_offset + 8) as u32,
                    waiting: Waiting::Nothing,
                    ..self
                },
                StepModel::Reply(seq![0x76u8, seq]),
            )
        }
    }

    /// RequestTransferExit up to the write of the incomplete double word.
    pub open spec fn transfer_exit(self, payload: Seq<u8>) -> (OtaModel, StepModel) {
        if self.state != OtaState::Receiving {
            self.refused(SID_REQUEST_TRANSFER_EXIT, Nrc::ConditionsNotCorrect)
        } else if payload.len() != 0 {
            self.refused(
                SID_REQUEST_TRANSFER_EXIT,
                Nrc::IncorrectMessageLengthOrInvalidFormat,
            )
        } else if self.buffered.len() > 0 {
            OtaModel { buffered: Seq::empty(), ..self }.asking(
                Waiting::Flush,
                FlashOp::Write {
                    offset: self.next_offset,
                    region_start: DFU_START,
                    region_end: DFU_END,
                    value: bytes::le_u64(padded(self.buffered)),
                },
            )
        } else {
            self.flush_done(true)
        }
    }

    /// RequestTransferExit once nothing is collected any more: an image that
    /// is more than seven bytes short is given up, any other read back.
    pub open spec fn flush_done(self, ok: bool) -> (OtaModel, StepModel) {
        if !ok || self.remaining > 7 {
            self.aborted(SID_REQUEST_TRANSFER_EXIT, Nrc::GeneralProgrammingFailure)
        } else {
            self.asking(
                Waiting::ReadBack,
                FlashOp::Read { start: DFU_START, len: self.total_size },
            )
        }
    }

    /// RequestTransferExit after the read-back: the checksum must agree.
    pub open spec fn read_done(self, words: Seq<u32>) -> (OtaModel, StepModel) {
        let image = words_bytes(words).take(self.total_size as int);
        if crc::crc_of(crc::CRC_INIT, image) ^ crc::CRC_XOROUT != self.crc32 ^ crc::CRC_XOROUT {
            self.aborted(SID_REQUEST_TRANSFER_EXIT, Nrc::GeneralProgrammingFailure)
        } else {
            self.asking(
                Waiting::MarkErase,
                FlashOp::Erase { start: STATE_ADDR, end: STATE_END },
            )
        }
    }

    /// RequestTransferExit after the page of the swap mark was erased.
    pub open spec fn mark_erased(self, ok: bool) -> (OtaModel, StepModel) {
        if !ok {
            self.aborted(SID_REQUEST_TRANSFER_EXIT, Nrc::GeneralProgrammingFailure)
        } else {
            self.asking(
                Waiting::MarkWrite,
                FlashOp::Write {
                    offset: STATE_ADDR,
                    region_start: STATE_ADDR,
                    region_end: STATE_END,
                    value: SWAP_MAGIC as u64,
                },
            )
        }
    }

    /// RequestTransferExit after the swap mark was written.
    pub open spec fn mark_written(self, ok: bool) -> (OtaModel, StepModel) {
        if !ok {
            self.aborted(SID_REQUEST_TRANSFER_EXIT, Nrc::GeneralProgrammingFailure)
        } else {
            (
                OtaModel {
                    state: OtaState::Done,
                    reset_requested: true,
                    waiting: Waiting::Nothing,
                    ..self
                },
                StepModel::Reply(seq![0x77u8]),
            )
        }
    }

    /// The machine after an erase or a write that succeeded or failed.
    pub open spec fn done(self, ok: bool) -> (OtaModel, StepModel) {
        match self.waiting {
            Waiting::Erase { size } => self.erase_done(size, ok),
            Waiting::Block { seq } => self.block_done(seq, ok),
            Waiting::Flush => self.flush_done(ok),
            Waiting::MarkErase => self.mark_erased(ok),
            Waiting::MarkWrite => self.mark_written(ok),
            _ => (self, StepModel::Reply(Seq::empty())),
        }
    }

    /// The machine after the outcome it waits for.
    pub open spec fn resumed(self, outcome: FlashOutcome) -> (OtaModel, StepModel) {
        match outcome {
            FlashOutcome::Done(r) => self.done(r is Ok),
            FlashOutcome::Words(words) => self.read_done(words@),
        }
    }
}

impl Ota {
    /// Nothing received, nothing armed.
    pub fn new() -> (o: Ota)
        ensures
            o@ == OtaModel::initial(),
            o.wf(),
            o@.ready(),
    {
        Ota {
            state: OtaState::Idle,
            remaining: 0,
            total_size: 0,
            next_offset: 0,
            crc32: 0,
            reset_requested: false,
            next_block_seq: 1,
            buffer: [0xFF; 8],
            buffer_len: 0,
            waiting: Waiting::Nothing,
        }
    }

    /// The model's invariant, and 0xFF behind the collected bytes.
    pub open spec fn wf(&self) -> bool {
        &&& self.buffer_len < 8
        &&& forall|i: int| self.buffer_len <= i < 8 ==> #[trigger] self.buffer@[i] == 0xFF
        &&& self@.inv()
    }

    fn ask(&mut self, waiting: Waiting, op: FlashOp) -> (step: OtaStep)
        ensures
            (final(self)@, step@) == old(self)@.asking(waiting, op),
            final(self).buffer == old(self).buffer,
            final(self).buffer_len == old(self).buffer_len,
    {
        self.waiting = waiting;
        OtaStep::Flash(op)
    }

    fn refuse(&mut self, sid: u8, nrc: Nrc) -> (step: OtaStep)
        ensures
            (final(self)@, step@) == old(self)@.refused(sid, nrc),
            final(self).buffer == old(self).buffer,
            final(self).buffer_len == old(self).buffer_len,
    {
        self.waiting = Waiting::Nothing;
        let reply = nrc.negative_response(sid);
        OtaStep::Reply(vstd::slice::slice_to_vec(reply.as_slice()))
    }

    fn abort(&mut self, sid: u8, nrc: Nrc) -> (step: OtaStep)
        ensures
            (final(self)@, step@) == old(self)@.aborted(sid, nrc),
            final(self).buffer == old(self).buffer,
            final(self).buffer_len == old(self).buffer_len,
    {
        self.state = OtaState::Idle;
        self.refuse(sid, nrc)
    }

    fn clear_buffer(&mut self)
        ensures
            final(self)@ == (OtaModel { buffered: Seq::empty(), ..old(self)@ }),
            final(self).buffer_len == 0,
            forall|i: int| 0 <= i < 8 ==> #[trigger] final(self).buffer@[i] == 0xFF,
    {
        self.buffer = [0xFF; 8];
        self.buffer_len = 0;
    }

    fn finish_flush(&mut self, ok: bool) -> (step: OtaStep)
        requires
            old(self)@.state is Receiving,
            old(self)@.remaining <= old(self)@.total_size,
        ensures
            (final(self)@, step@) == old(self)@.flush_done(ok),
            final(self).buffer == old(self).buffer,
            final(self).buffer_len == old(self).buffer_len,
    {
        let delivered: u32 = self.total_size - self.remaining;
        if !ok || delivered < self.total_size.saturating_sub(7) {
            return self.abort(SID_REQUEST_TRANSFER_EXIT, Nrc::GeneralProgrammingFailure);
        }
        let len: u32 = self.total_size;
        self.ask(Waiting::ReadBack, FlashOp::Read { start: DFU_START, len })
    }
}

/// True once after an update has been accepted; the caller then resets.
pub fn take_reset_request(ota: &mut Ota) -> (requested: bool)
    ensures
        requested == old(ota)@.reset_requested,
        final(ota)@ == (OtaModel { reset_requested: false, ..old(ota)@ }),
        old(ota).wf() ==> final(ota).wf(),
{
    let requested = ota.reset_requested;
    ota.reset_requested = false;
    requested
}

/// Handles 0x34 RequestDownload. `payload` is what follows the service id.
pub fn handle_request_download(ota: &mut Ota, payload: &[u8]) -> (step: OtaStep)
    requires
        old(ota).wf(),
        old(ota)@.ready(),
    ensures
        (final(ota)@, step@) == old(ota)@.request_download(payload@),
        final(ota).wf(),
{
    if payload.len() != 5 || payload[0] != 0x00 {
        return ota.refuse(SID_REQUEST_DOWNLOAD, Nrc::IncorrectMessageLengthOrInvalidFormat);
    }
    let size: u32 = bytes::u32_from_le([payload[1], payload[2], payload[3], payload[4]]);
    if size == 0 || size > DFU_END - DFU_START {
        return ota.refuse(SID_REQUEST_DOWNLOAD, Nrc::RequestOutOfRange);
    }
    if ota.state != OtaState::Idle {
        return ota.refuse(SID_REQUEST_DOWNLOAD, Nrc::ConditionsNotCorrect);
    }
    ota.ask(Waiting::Erase { size }, FlashOp::Erase { start: DFU_START, end: DFU_END })
}

/// Handles 0x36 TransferData. `payload` is `[block_seq, b0, b1]`.
pub fn handle_transfer_data(ota: &mut Ota, payload: &[u8]) -> (step: OtaStep)
    requires
        old(ota).wf(),
        old(ota)@.ready(),
    ensures
        (final(ota)@, step@) == old(ota)@.transfer_data(payload@),
        final(ota).wf(),
{
    if ota.state != OtaState::Receiving {
        return ota.refuse(SID_TRANSFER_DATA, Nrc::ConditionsNotCorrect);
    }
    if payload.len() != 3 {
        return ota.refuse(SID_TRANSFER_DATA, Nrc::IncorrectMessageLengthOrInvalidFormat);
    }
    if ota.remaining == 0 {
        return ota.abort(SID_TRANSFER_DATA, Nrc::RequestOutOfRange);
    }
    let seq: u8 = payload[0];
    if seq != ota.next_block_seq {
        return ota.refuse(SID_TRANSFER_DATA, Nrc::WrongBlockSequenceNumber);
    }
    let ghost before = ota@;
    let b0: u8 = payload[1];
    let b1: u8 = payload[2];
    ota.next_block_seq = seq.wrapping_add(1);
    ota.crc32 = crc::crc32_update(crc::crc32_update(ota.crc32, b0), b1);
    proof {
        let two = seq![b0, b1];
        let one = seq![b0];
        assert(two.drop_last() =~= one);
        assert(one.drop_last() =~= Seq::<u8>::empty());
        reveal_with_fuel(crc::crc_of, 3);
    }
    let len: usize = ota.buffer_len;
    ota.buffer[len] = b0;
    ota.buffer[len + 1] = b1;
    ota.buffer_len = len + 2;
    ota.remaining = ota.remaining.saturating_sub(BLOCK_BYTES);
    assert(ota@ == before.accepted(b0, b1));
    if ota.buffer_len == 8 {
        let value: u64 = bytes::u64_from_le(ota.buffer);
        assert(ota.buffer@ =~= before.accepted(b0, b1).buffered);
        let offset: u32 = ota.next_offset;
        ota.clear_buffer();
        return ota.ask(
            Waiting::Block { seq },
            FlashOp::Write { offset, region_start: DFU_START, region_end: DFU_END, value },
        );
    }
    let reply: Vec<u8> = vec![0x76, seq];
    assert(reply@ =~= seq![0x76u8, seq]);
    OtaStep::Reply(reply)
}

/// Handles 0x37 RequestTransferExit, which takes no payload.
pub fn handle_transfer_exit(ota: &mut Ota, payload: &[u8]) -> (step: OtaStep)
    requires
        old(ota).wf(),
        old(ota)@.ready(),
    ensures
        (final(ota)@, step@) == old(ota)@.transfer_exit(payload@),
        final(ota).wf(),
{
    if ota.state != OtaState::Receiving {
        return ota.refuse(SID_REQUEST_TRANSFER_EXIT, Nrc::ConditionsNotCorrect);
    }
    if payload.len() != 0 {
        return ota.refuse(
            SID_REQUEST_TRANSFER_EXIT,
            Nrc::IncorrectMessageLengthOrInvalidFormat,
        );
    }
    if ota.buffer_len > 0 {
        let value: u64 = bytes::u64_from_le(ota.buffer);
        assert(ota.buffer@ =~= padded(ota@.buffered));
        let offset: u32 = ota.next_offset;
        ota.clear_buffer();
        return ota.ask(
            Waiting::Flush,
            FlashOp::Write { offset, region_start: DFU_START, region_end: DFU_END, value },
        );
    }
    ota.finish_flush(true)
}

/// The checksum register over the first `len` bytes of `words`.
pub fn image_crc(words: &[u32], len: u32) -> (crc: u32)
    requires
        words@.len() == words_for(len),
    ensures
        crc == crc::crc_of(crc::CRC_INIT, words_bytes(words@).take(len as int)),
{
    let ghost image = words_bytes(words@);
    let mut crc: u32 = crc::CRC_INIT;
    let mut i: u32 = 0;
    assert(image.take(0) =~= Seq::<u8>::empty());
    while i < len
        invariant
            i <= len,
            words@.len() == words_for(len),
            image == words_bytes(words@),
            crc == crc::crc_of(crc::CRC_INIT, image.take(i as int)),
        decreases len - i,
    {
        let le = bytes::u32_to_le(words[(i / 4) as usize]);
        crc = crc::crc32_update(crc, le[(i % 4) as usize]);
        proof {
            let next = image.take(i + 1);
            assert(next.drop_last() =~= image.take(i as int));
            assert(next.last() == image[i as int]);
        }
        i = i + 1;
    }
    crc
}

/// Goes on with the outcome of the flash operation that was asked for.
pub fn resume(ota: &mut Ota, outcome: FlashOutcome) -> (step: OtaStep)
    requires
        old(ota).wf(),
        old(ota)@.expects(outcome),
    ensures
        (final(ota)@, step@) == old(ota)@.resumed(outcome),
        final(ota).wf(),
{
    match outcome {
        FlashOutcome::Done(r) => finish_op(ota, r.is_ok()),
        FlashOutcome::Words(words) => finish_read(ota, words.as_slice()),
    }
}

/// Goes on after the image was read back.
fn finish_read(ota: &mut Ota, words: &[u32]) -> (step: OtaStep)
    requires
        old(ota).wf(),
        old(ota)@.waiting is ReadBack,
        words@.len() == words_for(old(ota)@.total_size),
    ensures
        (final(ota)@, step@) == old(ota)@.read_done(words@),
        final(ota).wf(),
{
    let expected: u32 = ota.crc32 ^ crc::CRC_XOROUT;
    let read: u32 = image_crc(words, ota.total_size) ^ crc::CRC_XOROUT;
    if read != expected {
        return ota.abort(SID_REQUEST_TRANSFER_EXIT, Nrc::GeneralProgrammingFailure);
    }
    ota.ask(Waiting::MarkErase, FlashOp::Erase { start: STATE_ADDR, end: STATE_END })
}

/// Goes on after an erase or a write.
fn finish_op(ota: &mut Ota, ok: bool) -> (step: OtaStep)
    requires
        old(ota).wf(),
        !(old(ota)@.waiting is Nothing),
        !(old(ota)@.waiting is ReadBack),
    ensures
        (final(ota)@, step@) == old(ota)@.done(ok),
        final(ota).wf(),
{
    match ota.waiting {
        Waiting::Erase { size } => {
            if !ok {
                return ota.refuse(SID_REQUEST_DOWNLOAD, Nrc::GeneralProgrammingFailure);
            }
            ota.state = OtaState::Receiving;
            ota.total_size = size;
            ota.remaining = size;
            ota.next_offset = DFU_START;
            ota.crc32 = crc::CRC_INIT;
            ota.next_block_seq = 1;
            ota.clear_buffer();
            ota.waiting = Waiting::Nothing;
            let reply: Vec<u8> = vec![0x74, 0x00, 0x00, 0x02];
            assert(reply@ =~= seq![0x74u8, 0x00, 0x00, 0x02]);
            OtaStep::Reply(reply)
        },
        Waiting::Block { seq } => {
            if !ok {
                return ota.abort(SID_TRANSFER_DATA, Nrc::GeneralProgrammingFailure);
            }
            ota.next_offset = ota.next_offset + 8;
            ota.waiting = Waiting::Nothing;
            let reply: Vec<u8> = vec![0x76, seq];
            assert(reply@ =~= seq![0x76u8, seq]);
            OtaStep::Reply(reply)
        },
        Waiting::Flush => ota.finish_flush(ok),
        Waiting::MarkErase => {
            if !ok {
                return ota.abort(SID_REQUEST_TRANSFER_EXIT, Nrc::GeneralProgrammingFailure);
            }
            ota.ask(
                Waiting::MarkWrite,
                FlashOp::Write {
                    offset: STATE_ADDR,
                    region_start: STATE_ADDR,
                    region_end: STATE_END,
                    value: SWAP_MAGIC as u64,
                },
            )
        },
        Waiting::MarkWrite => {
            if !ok {
                return ota.abort(SID_REQUEST_TRANSFER_EXIT, Nrc::GeneralProgrammingFailure);
            }
            ota.state = OtaState::Done;
            ota.reset_requested = true;
            ota.waiting = Waiting::Nothing;
            let reply: Vec<u8> = vec![0x77];
            assert(reply@ =~= seq![0x77u8]);
            OtaStep::Reply(reply)
        },
        Waiting::Nothing | Waiting::ReadBack => OtaStep::Reply(Vec::new()),
    }
}

} // verus!
