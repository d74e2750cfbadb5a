//! What the diagnostic server does as a whole.

use vstd::prelude::*;

use crate::bytes;
use crate::can::frame;
use crate::drivers::flash::FlashOutcome;
use crate::ota::OtaModel;
use crate::ota::StepModel;
use crate::uds;
use crate::uds::comm_control;
use crate::uds::config;
use crate::uds::config::ConfigModel;
use crate::uds::config::ServiceHandler;
use crate::uds::crypto;
use crate::uds::download;
use crate::uds::nrc::Nrc;
use crate::uds::pending;
use crate::uds::pending::PendingFn;
use crate::uds::pending::PendingJob;
use crate::uds::read_data;
use crate::uds::security;
use crate::uds::session;
use crate::uds::state;
use crate::uds::state::Session;
use crate::uds::state::UdsModel;
use crate::uds::static_config;
use crate::uds::ServerModel;
use crate::uds::TickStep;

verus! {

/// A request that is not admitted is answered with a refusal that names its
/// service and the reason, and changes nothing else.
pub proof fn law_refused_request_changes_nothing(
    s: UdsModel,
    c: ConfigModel,
    request: Seq<u8>,
    now_ms: u32,
)
    requires
        request.len() > 0,
        uds::admitted(s, c, request) is Err,
    ensures
        uds::dispatched(s, c, request, now_ms) == (
            UdsModel {
                response: uds::admitted(s, c, request)->Err_0.refusal(request[0]),
                response_pending: true,
                ..s
            },
            c,
        ),
{
}

/// Every request is answered at once or leaves work pending.
pub proof fn law_every_request_is_answered(
    s: UdsModel,
    c: ConfigModel,
    request: Seq<u8>,
    now_ms: u32,
)
    requires
        request.len() > 0,
    ensures
        ({
            let after = uds::dispatched(s, c, request, now_ms).0;
            after.response_pending || after.state is Pending
        }),
{
    match uds::admitted(s, c, request) {
        Err(_) => {},
        Ok(handler) => lemma_served_answers(
            uds::in_flight(s, request, now_ms),
            c,
            handler,
            request,
        ),
    }
}

proof fn lemma_served_answers(
    s: UdsModel,
    c: ConfigModel,
    handler: ServiceHandler,
    request: Seq<u8>,
)
    ensures
        ({
            let after = uds::served(s, c, handler, request).0;
            after.response_pending || after.state is Pending
        }),
{
    match handler {
        ServiceHandler::Session => lemma_session_answers(s, c, request),
        ServiceHandler::SecurityAccess => lemma_security_answers(s, c, request),
        ServiceHandler::ReadDataById => lemma_read_answers(s, c, request),
        ServiceHandler::WriteDataById => lemma_write_answers(s, c, request),
        ServiceHandler::RoutineStart => lemma_routine_answers(s, c, request),
        _ => {},
    }
}

proof fn lemma_session_answers(s: UdsModel, c: ConfigModel, request: Seq<u8>)
    ensures
        session::handled(s, c, request).response_pending,
{
}

proof fn lemma_security_answers(s: UdsModel, c: ConfigModel, request: Seq<u8>)
    ensures
        uds::security::handled(s, c, request).response_pending,
{
}

proof fn lemma_read_answers(s: UdsModel, c: ConfigModel, request: Seq<u8>)
    ensures
        uds::read_data::handled(s, c, request).response_pending,
{
}

proof fn lemma_write_answers(s: UdsModel, c: ConfigModel, request: Seq<u8>)
    ensures
        uds::write_data::handled(s, c, request).0.response_pending,
{
}

proof fn lemma_routine_answers(s: UdsModel, c: ConfigModel, request: Seq<u8>)
    ensures
        uds::routine::handled(
            s,
            c,
            request,
            uds::routine::asked(request),
        ).response_pending,
{
}

/// While transmission is switched off, every request but the one that
/// switches it on again is refused.
pub proof fn law_silenced_server_refuses(
    s: UdsModel,
    c: ConfigModel,
    request: Seq<u8>,
    now_ms: u32,
)
    requires
        s.tx_disabled,
        request.len() > 0,
        !uds::is_unlock(request),
    ensures
        uds::dispatched(s, c, request, now_ms) == (
            s.refused(request[0], Nrc::ConditionsNotCorrect),
            c,
        ),
{
}

/// With the standard services, the two requests that switch transmission off
/// do so.
pub proof fn law_silence_can_be_begun(
    s: UdsModel,
    c: ConfigModel,
    subfunc: u8,
    network: u8,
    now_ms: u32,
)
    requires
        c.services == static_config::services(static_config::ANY_SESSION),
        !s.tx_disabled,
        subfunc == 0x01 || subfunc == 0x03,
    ensures
        ({
            let request = seq![comm_control::SID, subfunc, network];
            uds::dispatched(s, c, request, now_ms).0.tx_disabled
        }),
{
    static_config::law_services_are_found(static_config::ANY_SESSION, comm_control::SID);
    let request = seq![comm_control::SID, subfunc, network];
    assert(uds::admitted(s, c, request) == Ok::<ServiceHandler, Nrc>(ServiceHandler::CommControl));
    let flying = uds::in_flight(s, request, now_ms);
    assert(uds::dispatched(s, c, request, now_ms).0 == comm_control::handled(flying, request));
}

/// Queued work does not touch the switch of transmission.
proof fn lemma_jobs_keep_silence(m: ServerModel, now_ms: u32)
    ensures
        m.jobs_done(now_ms).0.state.tx_disabled == m.state.tx_disabled,
    decreases pending::PENDING_QUEUE_SIZE - m.slot,
{
    if m.slot < pending::PENDING_QUEUE_SIZE {
        match m.config.queue[m.slot] {
            None => lemma_jobs_keep_silence(m.next_slot(), now_ms),
            Some(job) => {
                let begun = download::job_begun(m.state, m.ota, job);
                if let StepModel::Reply(reply) = begun.1 {
                    let after = ServerModel { ota: begun.0, ..m };
                    lemma_jobs_keep_silence(after.job_answered(reply), now_ms);
                }
            },
        }
    }
}

/// Once transmission is switched off it stays off, and no response goes out,
/// whatever requests come and whatever work is done, until the request that
/// switches it on again.
pub proof fn law_silence_lasts(
    m: ServerModel,
    request: Seq<u8>,
    outcome: FlashOutcome,
    response: Option<Seq<u8>>,
    now_ms: u32,
)
    requires
        m.state.tx_disabled,
        !uds::is_unlock(request),
    ensures
        uds::dispatched(m.state, m.config, request, now_ms).0.tx_disabled,
        m.ticked(now_ms).0.state.tx_disabled,
        m.resumed(outcome, now_ms).0.state.tx_disabled,
        frame::sent(response, m.state.tx_disabled) is None,
{
    lemma_jobs_keep_silence(m, now_ms);
    let went_on = m.ota.resumed(outcome);
    if let StepModel::Reply(reply) = went_on.1 {
        let after = ServerModel { ota: went_on.0, ..m };
        lemma_jobs_keep_silence(after.job_answered(reply), now_ms);
    }
}

/// With the standard services, transmission can always be switched on again.
pub proof fn law_silence_can_be_ended(s: UdsModel, c: ConfigModel, network: u8, now_ms: u32)
    requires
        c.services == static_config::services(static_config::ANY_SESSION),
    ensures
        ({
            let request = seq![comm_control::SID, comm_control::ENABLE, network];
            let after = uds::dispatched(s, c, request, now_ms).0;
            &&& !after.tx_disabled
            &&& !after.rx_disabled
            &&& after.response == seq![0x68u8, 0x00]
        }),
{
    static_config::law_services_are_found(static_config::ANY_SESSION, comm_control::SID);
    let request = seq![comm_control::SID, comm_control::ENABLE, network];
    assert(uds::is_unlock(request));
    assert(uds::admitted(s, c, request) == Ok::<ServiceHandler, Nrc>(ServiceHandler::CommControl));
    let flying = uds::in_flight(s, request, now_ms);
    let after = uds::dispatched(s, c, request, now_ms).0;
    assert(after == comm_control::handled(flying, request));
    assert(after.response =~= seq![0x68u8, 0x00]);
}

/// With the standard services, update requests are only queued in the
/// programming session and with security access; otherwise they are refused
/// and the queue stays as it is.
pub proof fn law_update_is_gated(s: UdsModel, c: ConfigModel, request: Seq<u8>, now_ms: u32)
    requires
        c.services == static_config::services(static_config::ANY_SESSION),
        request.len() > 0,
        request[0] == 0x34 || request[0] == 0x36 || request[0] == 0x37,
        !(s.session is Programming) || s.security is Locked,
        !s.tx_disabled,
    ensures
        uds::dispatched(s, c, request, now_ms) == (
            s.refused(
                request[0],
                if s.session is Programming {
                    Nrc::SecurityAccessDenied
                } else {
                    Nrc::ServiceNotSupportedInActiveSession
                },
            ),
            c,
        ),
{
    static_config::law_services_are_found(static_config::ANY_SESSION, request[0]);
}

/// With the standard services, the session that is asked for is entered.
proof fn lemma_session_is_entered(s: UdsModel, c: ConfigModel, session: Session, now_ms: u32)
    requires
        c.services == static_config::services(static_config::ANY_SESSION),
        !s.tx_disabled,
        session is Default || s.security.rank() >= 1,
    ensures
        ({
            let entered = uds::dispatched(s, c, seq![0x10u8, session.byte()], now_ms).0;
            &&& entered.session == session
            &&& !entered.tx_disabled
            &&& entered.response == seq![0x50u8, session.byte()]
        }),
{
    static_config::law_services_are_found(static_config::ANY_SESSION, 0x10);
    let request = seq![0x10u8, session.byte()];
    assert(uds::admitted(s, c, request) == Ok::<ServiceHandler, Nrc>(ServiceHandler::Session));
    assert(session::selected(session.byte()) == Some(session));
}

/// With the standard configuration, the active session can be read.
proof fn lemma_session_is_read(s: UdsModel, c: ConfigModel, now_ms: u32)
    requires
        c.services == static_config::services(static_config::ANY_SESSION),
        c.read_dids == static_config::read_dids(),
        !s.tx_disabled,
    ensures
        uds::dispatched(s, c, seq![0x22u8, 0x86, 0xF1], now_ms).0.response == seq![
            0x62u8,
            0x86,
            0xF1,
            s.session.byte(),
        ],
{
    static_config::law_services_are_found(static_config::ANY_SESSION, 0x22);
    let request = seq![0x22u8, 0x86, 0xF1];
    assert(uds::admitted(s, c, request) == Ok::<ServiceHandler, Nrc>(ServiceHandler::ReadDataById));
    let flying = uds::in_flight(s, request, now_ms);
    let read = uds::dispatched(s, c, request, now_ms).0;
    assert(read == read_data::handled(flying, c, request));
    assert(bytes::le_u16(0x86, 0xF1) == static_config::DID_ACTIVE_SESSION);
    assert(config::read_did_of(c.read_dids, 0xF186) == Some(static_config::read_dids()[0]));
    assert(read.response =~= seq![0x62u8, 0x86, 0xF1, s.session.byte()]);
}

/// With the standard configuration, the session that was entered is the one
/// that reads back.
#[verifier::rlimit(50)]
pub proof fn law_entered_session_reads_back(
    s: UdsModel,
    c: ConfigModel,
    session: Session,
    first_ms: u32,
    second_ms: u32,
)
    requires
        c.services == static_config::services(static_config::ANY_SESSION),
        c.read_dids == static_config::read_dids(),
        !s.tx_disabled,
        session is Default || s.security.rank() >= 1,
    ensures
        ({
            let entered = uds::dispatched(s, c, seq![0x10u8, session.byte()], first_ms).0;
            let read = uds::dispatched(entered, c, seq![0x22u8, 0x86, 0xF1], second_ms).0;
            &&& entered.session == session
            &&& entered.response == seq![0x50u8, session.byte()]
            &&& read.response == seq![0x62u8, 0x86, 0xF1, session.byte()]
        }),
{
    lemma_session_is_entered(s, c, session, first_ms);
    let entered = uds::dispatched(s, c, seq![0x10u8, session.byte()], first_ms).0;
    lemma_session_is_read(entered, c, second_ms);
}

/// Replacing the key material rotates the keys: once the write is
/// acknowledged, each level is unlocked by the key that the mask at the start
/// of its new block gives, and a level that is not reached yet by no other.
pub proof fn law_rotated_keys_unlock(
    s: UdsModel,
    c: ConfigModel,
    req: Seq<u8>,
    later: UdsModel,
    sal: u8,
    key: u32,
)
    requires
        later.wf(),
        1 <= sal <= 3,
        security::reachable(sal, later.session),
        later.security.rank() < sal,
        uds::write_data::handled(s, c, req).0.response == seq![0x6Eu8, req[1], req[2]],
    ensures
        ({
            let rotated = uds::write_data::handled(s, c, req).1;
            let mask = config::leading_mask(req.skip(3 + 16 * (sal - 1)));
            let seeded = security::handled(later, rotated, seq![0x27u8, (2 * sal - 1) as u8]);
            let answer = seq![0x27u8, (2 * sal) as u8] + bytes::u32_le(key);
            let tried = security::handled(seeded, rotated, answer);
            if key == crypto::key_for(security::SEED_ALL, mask) {
                tried.security.rank() == sal
            } else {
                &&& tried.security == later.security
                &&& tried.response == Nrc::InvalidKey.refusal(0x27)
            }
        }),
{
    let rotated = uds::write_data::handled(s, c, req).1;
    uds::write_data::law_accepted_key_material_is_kept(s, c, req);
    assert(rotated.key_masks.skip(16 * (sal - 1)) =~= req.skip(3 + 16 * (sal - 1)));
    let answer = seq![0x27u8, (2 * sal) as u8] + bytes::u32_le(key);
    assert(answer.skip(2) =~= bytes::u32_le(key));
    bytes::lemma_u32_le_round_trip(key);
    assert(security::meaning((2 * sal - 1) as u8) == Some((sal, true)));
    assert(security::meaning((2 * sal) as u8) == Some((sal, false)));
}

/// The work that a request of an update service is queued as, if it has its
/// shape.
pub open spec fn work_of(handler: ServiceHandler, request: Seq<u8>) -> Option<PendingFn> {
    match handler {
        ServiceHandler::RequestDownload => if download::request_verdict(request) is Ok {
            Some(PendingFn::Erase)
        } else {
            None
        },
        ServiceHandler::TransferData => if download::transfer_verdict(request) is Ok {
            Some(PendingFn::Transfer)
        } else {
            None
        },
        ServiceHandler::TransferExit => if download::exit_verdict(request) is Ok {
            Some(PendingFn::Exit)
        } else {
            None
        },
        _ => None,
    }
}

/// What the update machine does with a request of an update service.
pub open spec fn work_begun(o: OtaModel, f: PendingFn, request: Seq<u8>) -> (OtaModel, StepModel) {
    match f {
        PendingFn::Erase => o.request_download(request.skip(1)),
        PendingFn::Transfer => o.transfer_data(request.skip(1)),
        PendingFn::Exit => o.transfer_exit(Seq::empty()),
    }
}

/// A queue with one job, which is the next to be done.
pub open spec fn has_one_job(m: ServerModel, f: PendingFn) -> bool {
    &&& m.state.state is Pending
    &&& m.config.queue == seq![Some(PendingJob { func: f }), None, None, None]
    &&& m.slot == 0
    &&& m.completed == seq![false, false, false, false]
}

/// The server is idle again, with `reply` waiting as its response.
pub open spec fn answered(m: ServerModel, reply: Seq<u8>) -> bool {
    &&& m.state.state is Idle
    &&& m.state.response_pending
    &&& m.state.response == state::clipped(reply)
    &&& m.config.drained()
}

/// The answer to the only job ends the tick.
proof fn lemma_only_job_answered(m: ServerModel, f: PendingFn, reply: Seq<u8>, now_ms: u32)
    requires
        has_one_job(m, f),
    ensures
        m.job_answered(reply).jobs_done(now_ms).1 == TickStep::Done,
        m.job_answered(reply).jobs_done(now_ms).0.ota == m.ota,
        answered(m.job_answered(reply).jobs_done(now_ms).0, reply),
{
    let m1 = m.job_answered(reply);
    let m2 = m1.next_slot();
    let m3 = m2.next_slot();
    let m4 = m3.next_slot();
    assert(m4.jobs_done(now_ms) == (m4.finished(now_ms), TickStep::Done));
    assert(m3.jobs_done(now_ms) == m4.jobs_done(now_ms));
    assert(m2.jobs_done(now_ms) == m3.jobs_done(now_ms));
    assert(m1.jobs_done(now_ms) == m2.jobs_done(now_ms));
    assert(m4.completed =~= seq![true, false, false, false]);
    assert(m4.completed[0]);
    assert(pending::any_completed(m4.config.queue, m4.completed));
    assert(m4.finished(now_ms).config.drained());
}

/// A request of an update service that is admitted while nothing is queued
/// leaves the server pending; the next tick hands it to the update machine.
/// If that answers at once, the server is idle again with the answer as its
/// response; if it needs the flash controller, the tick says so.
pub proof fn law_queued_work_is_done_by_the_tick(
    m: ServerModel,
    request: Seq<u8>,
    handler: ServiceHandler,
    f: PendingFn,
    now_ms: u32,
    tick_ms: u32,
)
    requires
        request.len() > 0,
        uds::admitted(m.state, m.config, request) == Ok::<ServiceHandler, Nrc>(handler),
        work_of(handler, request) == Some(f),
        m.config.queue == seq![None::<PendingJob>, None, None, None],
        m.slot == 0,
        m.completed == seq![false, false, false, false],
    ensures
        ({
            let after = uds::dispatched(m.state, m.config, request, now_ms);
            let queued = ServerModel { state: after.0, config: after.1, ..m };
            let begun = work_begun(m.ota, f, request);
            let ticked = queued.ticked(tick_ms);
            &&& has_one_job(queued, f)
            &&& ticked.0.ota == begun.0
            &&& match begun.1 {
                StepModel::Reply(reply) => ticked.1 == TickStep::Done && answered(ticked.0, reply),
                StepModel::Flash(op) => ticked.1 == TickStep::Flash(op) && has_one_job(ticked.0, f),
            }
        }),
{
    let after = uds::dispatched(m.state, m.config, request, now_ms);
    let queued = ServerModel { state: after.0, config: after.1, ..m };
    let job = PendingJob { func: f };
    assert(pending::free_slot(m.config.queue, 0) == 0);
    assert(queued.config.queue =~= seq![Some(job), None, None, None]);
    let begun = work_begun(m.ota, f, request);
    assert(download::job_begun(queued.state, queued.ota, job) == begun);
    if let StepModel::Reply(reply) = begun.1 {
        lemma_only_job_answered(ServerModel { ota: begun.0, ..queued }, f, reply, tick_ms);
    }
}

/// Queued work that waits for the flash controller goes on with the outcome:
/// it asks for the next operation, or the update machine answers and the
/// server is idle again with the answer as its response.
pub proof fn law_flash_outcome_goes_to_the_update_machine(
    m: ServerModel,
    f: PendingFn,
    outcome: FlashOutcome,
    now_ms: u32,
)
    requires
        has_one_job(m, f),
    ensures
        ({
            let went_on = m.ota.resumed(outcome);
            let resumed = m.resumed(outcome, now_ms);
            &&& resumed.0.ota == went_on.0
            &&& match went_on.1 {
                StepModel::Reply(reply) => resumed.1 == TickStep::Done && answered(
                    resumed.0,
                    reply,
                ),
                StepModel::Flash(op) => resumed.1 == TickStep::Flash(op) && has_one_job(
                    resumed.0,
                    f,
                ),
            }
        }),
{
    let went_on = m.ota.resumed(outcome);
    if let StepModel::Reply(reply) = went_on.1 {
        lemma_only_job_answered(ServerModel { ota: went_on.0, ..m }, f, reply, now_ms);
    }
}

/// A server without pending work does nothing in a tick.
pub proof fn law_idle_tick_does_nothing(m: ServerModel, now_ms: u32)
    requires
        !(m.state.state is Pending),
    ensures
        m.ticked(now_ms) == (m, TickStep::Done),
{
}

/// Two jobs that need no flash operation are done by one tick, in the order of
/// their slots; the response is that of the second, and the server is idle.
pub proof fn law_jobs_are_done_in_order(
    m: ServerModel,
    f: PendingFn,
    g: PendingFn,
    first: Seq<u8>,
    second: Seq<u8>,
    now_ms: u32,
)
    requires
        m.state.state is Pending,
        m.config.queue == seq![
            Some(PendingJob { func: f }),
            Some(PendingJob { func: g }),
            None,
            None,
        ],
        m.slot == 0,
        m.completed == seq![false, false, false, false],
        work_begun(m.ota, f, m.state.request).1 == StepModel::Reply(first),
        work_begun(work_begun(m.ota, f, m.state.request).0, g, m.state.request).1
            == StepModel::Reply(second),
    ensures
        ({
            let after = m.ticked(now_ms);
            let one = work_begun(m.ota, f, m.state.request).0;
            &&& after.1 == TickStep::Done
            &&& after.0.ota == work_begun(one, g, m.state.request).0
            &&& answered(after.0, second)
        }),
{
    let one = work_begun(m.ota, f, m.state.request).0;
    let two = work_begun(one, g, m.state.request).0;
    let m1 = ServerModel { ota: one, ..m }.job_answered(first);
    let m2 = ServerModel { ota: two, ..m1 }.job_answered(second);
    assert(download::job_begun(m.state, m.ota, PendingJob { func: f }) == work_begun(
        m.ota,
        f,
        m.state.request,
    ));
    assert(download::job_begun(m1.state, m1.ota, PendingJob { func: g }) == work_begun(
        one,
        g,
        m.state.request,
    ));
    assert(m.jobs_done(now_ms) == m1.jobs_done(now_ms));
    assert(m1.jobs_done(now_ms) == m2.jobs_done(now_ms));
    let m3 = m2.next_slot();
    let m4 = m3.next_slot();
    assert(m4.jobs_done(now_ms) == (m4.finished(now_ms), TickStep::Done));
    assert(m3.jobs_done(now_ms) == m4.jobs_done(now_ms));
    assert(m2.jobs_done(now_ms) == m3.jobs_done(now_ms));
    assert(m4.completed =~= seq![true, true, false, false]);
    assert(m4.completed[0]);
    assert(pending::any_completed(m4.config.queue, m4.completed));
    assert(m4.finished(now_ms).config.drained());
}

/// A job is done by the tick whichever of the four slots it is in.
pub proof fn law_job_is_done_from_any_slot(
    m: ServerModel,
    k: int,
    f: PendingFn,
    reply: Seq<u8>,
    now_ms: u32,
)
    requires
        m.state.state is Pending,
        0 <= k < 4,
        m.config.queue == seq![None::<PendingJob>, None, None, None].update(
            k,
            Some(PendingJob { func: f }),
        ),
        m.slot == 0,
        m.completed == seq![false, false, false, false],
        work_begun(m.ota, f, m.state.request).1 == StepModel::Reply(reply),
    ensures
        ({
            let after = m.ticked(now_ms);
            &&& after.1 == TickStep::Done
            &&& after.0.ota == work_begun(m.ota, f, m.state.request).0
            &&& answered(after.0, reply)
        }),
{
    let begun = work_begun(m.ota, f, m.state.request);
    let at = ServerModel { slot: k, ..m };
    lemma_free_slots_are_passed(m, k, now_ms);
    assert(download::job_begun(at.state, at.ota, PendingJob { func: f }) == begun);
    let after = ServerModel { ota: begun.0, ..at }.job_answered(reply);
    assert(at.jobs_done(now_ms) == after.jobs_done(now_ms));
    let end = ServerModel { slot: 4, ..after };
    lemma_free_slots_are_passed(after, 4, now_ms);
    assert(end.jobs_done(now_ms) == (end.finished(now_ms), TickStep::Done));
    assert(end.completed[k]);
    assert(pending::any_completed(end.config.queue, end.completed));
    assert(end.finished(now_ms).config.drained());
}

/// A tick passes over free slots.
proof fn lemma_free_slots_are_passed(m: ServerModel, k: int, now_ms: u32)
    requires
        0 <= m.slot <= k <= 4,
        m.config.queue.len() == 4,
        forall|i: int| m.slot <= i < k ==> #[trigger] m.config.queue[i] is None,
    ensures
        m.jobs_done(now_ms) == (ServerModel { slot: k, ..m }).jobs_done(now_ms),
    decreases k - m.slot,
{
    if m.slot < k {
        assert(m.config.queue[m.slot] is None);
        lemma_free_slots_are_passed(m.next_slot(), k, now_ms);
    }
}

} // verus!
