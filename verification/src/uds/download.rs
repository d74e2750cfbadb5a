//! 0x34 RequestDownload, 0x36 TransferData and 0x37 RequestTransferExit.
//!
//! The work itself is done by the update machine. A request can be handled
//! at once, or be checked and queued for the next tick.

use vstd::prelude::*;
use vstd::slice::slice_subrange;

use crate::drivers::flash::FlashOp;
use crate::drivers::flash::FlashOutcome;
use crate::ota;
use crate::ota::Ota;
use crate::ota::OtaModel;
use crate::ota::OtaStep;
use crate::ota::StepModel;
use crate::uds::config::ConfigModel;
use crate::uds::config::UdsConfig;
use crate::uds::nrc::Nrc;
use crate::uds::pending;
use crate::uds::pending::PendingFn;
use crate::uds::pending::PendingJob;
use crate::uds::state;
use crate::uds::state::SrvState;
use crate::uds::state::UdsModel;
use crate::uds::state::UdsState;

verus! {

pub const SID_REQUEST: u8 = 0x34;

pub const SID_TRANSFER: u8 = 0x36;

pub const SID_EXIT: u8 = 0x37;

/// Whether `[0x34, 0x00, size (4 bytes)]` has its shape.
pub open spec fn request_verdict(req: Seq<u8>) -> Result<(), Nrc> {
    if req.len() != 6 || req[1] != 0x00 {
        Err(Nrc::RequestOutOfRange)
    } else {
        Ok(())
    }
}

/// Whether `[0x36, block_seq, b0, b1]` has its shape.
pub open spec fn transfer_verdict(req: Seq<u8>) -> Result<(), Nrc> {
    if req.len() != 4 {
        Err(Nrc::IncorrectMessageLengthOrInvalidFormat)
    } else {
        Ok(())
    }
}

/// Whether `[0x37]` has its shape: nothing follows the service id.
pub open spec fn exit_verdict(req: Seq<u8>) -> Result<(), Nrc> {
    if req.len() > 1 {
        Err(Nrc::IncorrectMessageLengthOrInvalidFormat)
    } else {
        Ok(())
    }
}

/// The state after the update machine made a step, and its flash work.
pub open spec fn absorbed(s: UdsModel, step: StepModel) -> (UdsModel, Option<FlashOp>) {
    match step {
        StepModel::Reply(reply) => (s.replied(reply), None),
        StepModel::Flash(op) => (s, Some(op)),
    }
}

/// State, update machine and flash work after a request was handled at once.
pub open spec fn handled(
    s: UdsModel,
    o: OtaModel,
    sid: u8,
    verdict: Result<(), Nrc>,
    begun: (OtaModel, StepModel),
) -> (UdsModel, OtaModel, Option<FlashOp>) {
    match verdict {
        Err(nrc) => (s.refused(sid, nrc), o, None),
        Ok(()) => {
            let after = absorbed(s, begun.1);
            (after.0, begun.0, after.1)
        },
    }
}

/// After a download request was handled at once.
pub open spec fn request_handled(s: UdsModel, o: OtaModel, req: Seq<u8>) -> (
    UdsModel,
    OtaModel,
    Option<FlashOp>,
) {
    handled(s, o, SID_REQUEST, request_verdict(req), o.request_download(req.skip(1)))
}

/// After a transfer block was handled at once.
pub open spec fn transfer_handled(s: UdsModel, o: OtaModel, req: Seq<u8>) -> (
    UdsModel,
    OtaModel,
    Option<FlashOp>,
) {
    handled(s, o, SID_TRANSFER, transfer_verdict(req), o.transfer_data(req.skip(1)))
}

/// After the end of a transfer was handled at once.
pub open spec fn exit_handled(s: UdsModel, o: OtaModel, req: Seq<u8>) -> (
    UdsModel,
    OtaModel,
    Option<FlashOp>,
) {
    handled(s, o, SID_EXIT, exit_verdict(req), o.transfer_exit(Seq::empty()))
}

/// State and configuration after a job was put into the queue, or refused
/// because the queue is full.
pub open spec fn enqueued(s: UdsModel, c: ConfigModel, sid: u8, f: PendingFn) -> (
    UdsModel,
    ConfigModel,
) {
    let slot = pending::free_slot(c.queue, 0);
    if slot < c.queue.len() {
        (
            UdsModel { state: SrvState::Pending, ..s },
            ConfigModel { queue: c.queue.update(slot, Some(PendingJob { func: f })), ..c },
        )
    } else {
        (s.refused(sid, Nrc::ConditionsNotCorrect), c)
    }
}

/// State and configuration after the request in flight was checked and, if
/// it has its shape, queued.
pub open spec fn queued(
    s: UdsModel,
    c: ConfigModel,
    sid: u8,
    verdict: Result<(), Nrc>,
    f: PendingFn,
) -> (UdsModel, ConfigModel) {
    match verdict {
        Err(nrc) => (s.refused(sid, nrc), c),
        Ok(()) => enqueued(s, c, sid, f),
    }
}

/// Stores what the update machine answered, or passes its flash work on.
pub fn absorb(state: &mut UdsState, step: OtaStep) -> (op: Option<FlashOp>)
    ensures
        (final(state)@, op) == absorbed(old(state)@, step@),
{
    match step {
        OtaStep::Reply(reply) => {
            state::store_response(state, reply.as_slice());
            None
        },
        OtaStep::Flash(op) => Some(op),
    }
}

/// Handles a download request at once.
pub fn handle_request(state: &mut UdsState, ota: &mut Ota, req: &[u8]) -> (op: Option<FlashOp>)
    requires
        old(ota).wf(),
        old(ota)@.ready(),
    ensures
        (final(state)@, final(ota)@, op) == request_handled(old(state)@, old(ota)@, req@),
        final(ota).wf(),
{
    if req.len() != 6 || req[1] != 0x00 {
        state::store_negative(state, SID_REQUEST, Nrc::RequestOutOfRange);
        return None;
    }
    let payload = slice_subrange(req, 1, req.len());
    assert(payload@ =~= req@.skip(1));
    let step = ota::handle_request_download(ota, payload);
    absorb(state, step)
}

/// Handles a transfer block at once.
pub fn handle_transfer(state: &mut UdsState, ota: &mut Ota, req: &[u8]) -> (op: Option<FlashOp>)
    requires
        old(ota).wf(),
        old(ota)@.ready(),
    ensures
        (final(state)@, final(ota)@, op) == transfer_handled(old(state)@, old(ota)@, req@),
        final(ota).wf(),
{
    if req.len() != 4 {
        state::store_negative(state, SID_TRANSFER, Nrc::IncorrectMessageLengthOrInvalidFormat);
        return None;
    }
    let payload = slice_subrange(req, 1, req.len());
    assert(payload@ =~= req@.skip(1));
    let step = ota::handle_transfer_data(ota, payload);
    absorb(state, step)
}

/// Handles the end of a transfer at once.
pub fn handle_exit(state: &mut UdsState, ota: &mut Ota, req: &[u8]) -> (op: Option<FlashOp>)
    requires
        old(ota).wf(),
        old(ota)@.ready(),
    ensures
        (final(state)@, final(ota)@, op) == exit_handled(old(state)@, old(ota)@, req@),
        final(ota).wf(),
{
    if req.len() > 1 {
        state::store_negative(state, SID_EXIT, Nrc::IncorrectMessageLengthOrInvalidFormat);
        return None;
    }
    let none: [u8; 0] = [];
    assert(none@ =~= Seq::<u8>::empty());
    let step = ota::handle_transfer_exit(ota, none.as_slice());
    absorb(state, step)
}

/// Goes on with a request that was handled at once after its flash
/// operation.
pub fn resume(state: &mut UdsState, ota: &mut Ota, outcome: FlashOutcome) -> (op: Option<FlashOp>)
    requires
        old(ota).wf(),
        old(ota)@.expects(outcome),
    ensures
        final(ota)@ == old(ota)@.resumed(outcome).0,
        (final(state)@, op) == absorbed(old(state)@, old(ota)@.resumed(outcome).1),
        final(ota).wf(),
{
    let step = ota::resume(ota, outcome);
    absorb(state, step)
}

/// Puts a job into the queue, or refuses the request when it is full.
fn enqueue(state: &mut UdsState, config: &mut UdsConfig, sid: u8, f: PendingFn) -> (ok: bool)
    ensures
        (final(state)@, final(config)@) == enqueued(old(state)@, old(config)@, sid, f),
        ok == (pending::free_slot(old(config)@.queue, 0) < old(config)@.queue.len()),
{
    if pending::push_pending(state, config, f) {
        return true;
    }
    state::store_negative(state, sid, Nrc::ConditionsNotCorrect);
    false
}

/// Checks and queues the download request in flight.
pub fn try_queue_request(state: &mut UdsState, config: &mut UdsConfig) -> (ok: bool)
    ensures
        (final(state)@, final(config)@) == queued(
            old(state)@,
            old(config)@,
            SID_REQUEST,
            request_verdict(old(state)@.request),
            PendingFn::Erase,
        ),
        ok == (request_verdict(old(state)@.request) is Ok && pending::free_slot(
            old(config)@.queue,
            0,
        ) < old(config)@.queue.len()),
{
    if state.request_buf.len() != 6 || state.request_buf[1] != 0x00 {
        state::store_negative(state, SID_REQUEST, Nrc::RequestOutOfRange);
        return false;
    }
    enqueue(state, config, SID_REQUEST, PendingFn::Erase)
}

/// Checks and queues the transfer block in flight.
pub fn try_queue_transfer(state: &mut UdsState, config: &mut UdsConfig) -> (ok: bool)
    ensures
        (final(state)@, final(config)@) == queued(
            old(state)@,
            old(config)@,
            SID_TRANSFER,
            transfer_verdict(old(state)@.request),
            PendingFn::Transfer,
        ),
        ok == (transfer_verdict(old(state)@.request) is Ok && pending::free_slot(
            old(config)@.queue,
            0,
        ) < old(config)@.queue.len()),
{
    if state.request_buf.len() != 4 {
        state::store_negative(state, SID_TRANSFER, Nrc::IncorrectMessageLengthOrInvalidFormat);
        return false;
    }
    enqueue(state, config, SID_TRANSFER, PendingFn::Transfer)
}

/// Checks and queues the end of the transfer in flight.
pub fn try_queue_exit(state: &mut UdsState, config: &mut UdsConfig) -> (ok: bool)
    ensures
        (final(state)@, final(config)@) == queued(
            old(state)@,
            old(config)@,
            SID_EXIT,
            exit_verdict(old(state)@.request),
            PendingFn::Exit,
        ),
        ok == (exit_verdict(old(state)@.request) is Ok && pending::free_slot(
            old(config)@.queue,
            0,
        ) < old(config)@.queue.len()),
{
    if state.request_buf.len() > 1 {
        state::store_negative(state, SID_EXIT, Nrc::IncorrectMessageLengthOrInvalidFormat);
        return false;
    }
    enqueue(state, config, SID_EXIT, PendingFn::Exit)
}

/// What the update machine does for a queued job. The job's input is what
/// follows the service id of the request in flight.
pub open spec fn job_begun(s: UdsModel, o: OtaModel, job: PendingJob) -> (OtaModel, StepModel) {
    match job.func {
        PendingFn::Erase => o.request_download(s.request.skip(1)),
        PendingFn::Transfer => o.transfer_data(s.request.skip(1)),
        PendingFn::Exit => o.transfer_exit(Seq::empty()),
    }
}

/// Begins a queued job.
pub fn begin_job(state: &UdsState, ota: &mut Ota, job: PendingJob) -> (step: OtaStep)
    requires
        state@.request.len() > 0,
        old(ota).wf(),
        old(ota)@.ready(),
    ensures
        (final(ota)@, step@) == job_begun(state@, old(ota)@, job),
        final(ota).wf(),
{
    let len: usize = state.request_buf.len();
    let payload = slice_subrange(state.request_buf.as_slice(), 1, len);
    assert(payload@ =~= state@.request.skip(1));
    match job.func {
        PendingFn::Erase => ota::handle_request_download(ota, payload),
        PendingFn::Transfer => ota::handle_transfer_data(ota, payload),
        PendingFn::Exit => {
            let none: [u8; 0] = [];
            assert(none@ =~= Seq::<u8>::empty());
            ota::handle_transfer_exit(ota, none.as_slice())
        },
    }
}

/// What the update machine answered is the response; flash work is passed on
/// and leaves the response as it was.
pub proof fn law_answers_are_passed_on(s: UdsModel, step: StepModel)
    ensures
        absorbed(s, step) == match step {
            StepModel::Flash(op) => (s, Some(op)),
            StepModel::Reply(reply) => (
                UdsModel {
                    response: if reply.len() <= 7 {
                        reply
                    } else {
                        reply.take(7)
                    },
                    response_pending: true,
                    ..s
                },
                None,
            ),
        },
{
}

/// A request of an update service that is handled at once goes to the update
/// machine, without its service id, exactly if it has its shape: six bytes with
/// format 0 for 0x34, four for 0x36, one for 0x37. Otherwise it is refused with
/// 0x31 or 0x13, and the machine is left alone.
pub proof fn law_shaped_requests_reach_the_machine(s: UdsModel, o: OtaModel, req: Seq<u8>)
    requires
        req.len() > 0,
    ensures
        request_handled(s, o, req) == if req.len() == 6 && req[1] == 0 {
            let begun = o.request_download(req.skip(1));
            (absorbed(s, begun.1).0, begun.0, absorbed(s, begun.1).1)
        } else {
            (
                UdsModel { response: seq![0x7Fu8, 0x34, 0x31], response_pending: true, ..s },
                o,
                None,
            )
        },
        transfer_handled(s, o, req) == if req.len() == 4 {
            let begun = o.transfer_data(seq![req[1], req[2], req[3]]);
            (absorbed(s, begun.1).0, begun.0, absorbed(s, begun.1).1)
        } else {
            (
                UdsModel { response: seq![0x7Fu8, 0x36, 0x13], response_pending: true, ..s },
                o,
                None,
            )
        },
        exit_handled(s, o, req) == if req.len() == 1 {
            let begun = o.transfer_exit(Seq::empty());
            (absorbed(s, begun.1).0, begun.0, absorbed(s, begun.1).1)
        } else {
            (
                UdsModel { response: seq![0x7Fu8, 0x37, 0x13], response_pending: true, ..s },
                o,
                None,
            )
        },
{
    if req.len() == 4 {
        assert(req.skip(1) =~= seq![req[1], req[2], req[3]]);
    }
}

} // verus!
