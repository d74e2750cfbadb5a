//! UDS (ISO 14229) diagnostic server.
//!
//! A request goes to the handler that the service table names, if session
//! and security level allow it. Update services are queued and done by
//! `tick`, which hands their flash work out and takes the outcome back.

pub mod comm_control;
pub mod config;
pub mod crypto;
pub mod download;
pub mod dtc;
pub mod laws;
pub mod nrc;
pub mod pending;
pub mod read_data;
pub mod reset;
pub mod routine;
pub mod security;
pub mod session;
pub mod state;
pub mod static_config;
pub mod tester_present;
pub mod transport;
pub mod update_laws;
pub mod wire;
pub mod write_data;

use vstd::prelude::*;
use vstd::slice::slice_to_vec;

use crate::drivers::flash::FlashOp;
use crate::drivers::flash::FlashOutcome;
use crate::ota;
use crate::ota::Ota;
use crate::ota::OtaModel;
use crate::ota::OtaStep;
use crate::ota::StepModel;
use crate::uds::config::ConfigModel;
use crate::uds::config::ServiceHandler;
use crate::uds::config::UdsConfig;
use crate::uds::nrc::Nrc;
use crate::uds::pending::DispatchResult;
use crate::uds::pending::PendingFn;
use crate::uds::pending::PENDING_QUEUE_SIZE;
use crate::uds::state::SrvState;
use crate::uds::state::UdsModel;
use crate::uds::state::UdsState;
use crate::uds::state::REQUEST_MAX;

verus! {

/// The server: its state, its configuration, the update machine, and how far
/// a tick has come with the queue.
pub struct UdsServer {
    pub state: UdsState,
    pub config: UdsConfig,
    pub ota: Ota,
    /// Slot of the job that is being done.
    pub slot: usize,
    /// Slots whose jobs this tick has done.
    pub completed: [bool; 4],
}

/// `UdsServer` in terms of the models of its parts.
#[verifier::ext_equal]
pub struct ServerModel {
    pub state: UdsModel,
    pub config: ConfigModel,
    pub ota: OtaModel,
    pub slot: int,
    pub completed: Seq<bool>,
}

impl View for UdsServer {
    type V = ServerModel;

    open spec fn view(&self) -> ServerModel {
        ServerModel {
            state: self.state@,
            config: self.config@,
            ota: self.ota@,
            slot: self.slot as int,
            completed: self.completed@,
        }
    }
}

/// What a tick comes to: all done, or work for the flash controller after
/// which it goes on.
#[derive(Copy, Clone, Debug, PartialEq, Eq, Structural)]
pub enum TickStep {
    Done,
    Flash(FlashOp),
}

/// The request that switches transmission on again.
pub open spec fn is_unlock(request: Seq<u8>) -> bool {
    request.len() >= 2 && request[0] == comm_control::SID && request[1] == comm_control::ENABLE
}

/// State and configuration after the handler of a service.
pub open spec fn served(s: UdsModel, c: ConfigModel, handler: ServiceHandler, request: Seq<u8>) -> (
    UdsModel,
    ConfigModel,
) {
    match handler {
        ServiceHandler::Session => (session::handled(s, c, request), c),
        ServiceHandler::EcuReset => (reset::handled(s, c.soft_reset, request), c),
        ServiceHandler::ClearDtc => (dtc::cleared(s, request), c),
        ServiceHandler::ReadDtc => (dtc::reported(s, request), c),
        ServiceHandler::ReadDataById => (read_data::handled(s, c, request), c),
        ServiceHandler::WriteDataById => write_data::handled(s, c, request),
        ServiceHandler::CommControl => (comm_control::handled(s, request), c),
        ServiceHandler::SecurityAccess => (security::handled(s, c, request), c),
        ServiceHandler::RoutineStart => (
            routine::handled(s, c, request, routine::asked(request)),
            c,
        ),
        ServiceHandler::RequestDownload => download::queued(
            s,
            c,
            download::SID_REQUEST,
            download::request_verdict(s.request),
            PendingFn::Erase,
        ),
        ServiceHandler::TransferData => download::queued(
            s,
            c,
            download::SID_TRANSFER,
            download::transfer_verdict(s.request),
            PendingFn::Transfer,
        ),
        ServiceHandler::TransferExit => download::queued(
            s,
            c,
            download::SID_EXIT,
            download::exit_verdict(s.request),
            PendingFn::Exit,
        ),
        ServiceHandler::TesterPresent => (tester_present::handled(s, request), c),
    }
}

/// The handler for a request, or the reason why it is refused.
pub open spec fn admitted(s: UdsModel, c: ConfigModel, request: Seq<u8>) -> Result<
    ServiceHandler,
    Nrc,
> {
    if s.tx_disabled && !is_unlock(request) {
        Err(Nrc::ConditionsNotCorrect)
    } else {
        match config::service_of(c.services, request[0]) {
            None => Err(Nrc::ServiceNotSupported),
            Some(entry) => if !config::admits(entry.session_access, s.session) {
                Err(Nrc::ServiceNotSupportedInActiveSession)
            } else if s.security.rank() < entry.security_level {
                Err(Nrc::SecurityAccessDenied)
            } else {
                Ok(entry.handler)
            },
        }
    }
}

/// The state with `request` in flight since `now_ms`.
pub open spec fn in_flight(s: UdsModel, request: Seq<u8>, now_ms: u32) -> UdsModel {
    UdsModel { request, request_tick_ms: now_ms, ..s }
}

/// State and configuration after a request.
pub open spec fn dispatched(s: UdsModel, c: ConfigModel, request: Seq<u8>, now_ms: u32) -> (
    UdsModel,
    ConfigModel,
) {
    if request.len() == 0 {
        (s, c)
    } else {
        match admitted(s, c, request) {
            Err(nrc) => (s.refused(request[0], nrc), c),
            Ok(handler) => served(in_flight(s, request, now_ms), c, handler, request),
        }
    }
}

impl ServerModel {
    /// After all slots have been looked at.
    pub open spec fn finished(self, now_ms: u32) -> ServerModel {
        ServerModel {
            state: pending::state_ticked(self.state, self.config, self.completed, now_ms),
            config: pending::config_ticked(self.state, self.config, self.completed),
            slot: 0,
            completed: seq![false, false, false, false],
            ..self
        }
    }

    /// The next slot.
    pub open spec fn next_slot(self) -> ServerModel {
        ServerModel { slot: self.slot + 1, ..self }
    }

    /// After the job in the current slot was answered with `reply`.
    pub open spec fn job_answered(self, reply: Seq<u8>) -> ServerModel {
        ServerModel {
            state: self.state.replied(reply),
            completed: self.completed.update(self.slot, true),
            ..self
        }.next_slot()
    }

    /// Does the jobs from the current slot on, until one needs the flash
    /// controller or all are done.
    pub open spec fn jobs_done(self, now_ms: u32) -> (ServerModel, TickStep)
        decreases PENDING_QUEUE_SIZE - self.slot,
    {
        if self.slot >= PENDING_QUEUE_SIZE {
            (self.finished(now_ms), TickStep::Done)
        } else {
            match self.config.queue[self.slot] {
                None => self.next_slot().jobs_done(now_ms),
                Some(job) => {
                    let begun = download::job_begun(self.state, self.ota, job);
                    let after = ServerModel { ota: begun.0, ..self };
                    match begun.1 {
                        StepModel::Reply(reply) => after.job_answered(reply).jobs_done(now_ms),
                        StepModel::Flash(op) => (after, TickStep::Flash(op)),
                    }
                },
            }
        }
    }

    /// After a tick.
    pub open spec fn ticked(self, now_ms: u32) -> (ServerModel, TickStep) {
        if self.state.state is Pending {
            self.jobs_done(now_ms)
        } else {
            (self, TickStep::Done)
        }
    }

    /// After the outcome of the flash operation of the current job.
    pub open spec fn resumed(self, outcome: FlashOutcome, now_ms: u32) -> (ServerModel, TickStep) {
        let went_on = self.ota.resumed(outcome);
        let after = ServerModel { ota: went_on.0, ..self };
        match went_on.1 {
            StepModel::Reply(reply) => after.job_answered(reply).jobs_done(now_ms),
            StepModel::Flash(op) => (after, TickStep::Flash(op)),
        }
    }
}

impl UdsServer {
    /// A server that has seen no request.
    pub fn new(config: UdsConfig) -> (server: UdsServer)
        ensures
            server.wf(),
            server@ == (ServerModel {
                state: UdsModel::initial(),
                config: config@,
                ota: OtaModel::initial(),
                slot: 0,
                completed: seq![false, false, false, false],
            }),
    {
        let server = UdsServer {
            state: UdsState::zeroed(),
            config,
            ota: Ota::new(),
            slot: 0,
            completed: [false, false, false, false],
        };
        assert(server.completed@ =~= seq![false, false, false, false]);
        server
    }

    /// What holds between calls: buffers within limits, a request in flight
    /// while work is pending, and a job being done while the update machine
    /// waits for the flash controller.
    pub open spec fn wf(&self) -> bool {
        &&& self.state@.wf()
        &&& self.ota.wf()
        &&& self.state@.state is Pending ==> self.state@.request.len() > 0
        &&& if self.ota@.ready() {
            self.slot == 0 && self.completed@ == seq![false, false, false, false]
        } else {
            self.slot < PENDING_QUEUE_SIZE && self.state@.state is Pending
        }
    }

    /// Does the jobs from the current slot on.
    fn do_jobs(&mut self, now_ms: u32) -> (step: TickStep)
        requires
            old(self).state@.wf(),
            old(self).ota.wf(),
            old(self).ota@.ready(),
            old(self).state@.state is Pending,
            old(self).state@.request.len() > 0,
            old(self).slot <= PENDING_QUEUE_SIZE,
        ensures
            (final(self)@, step) == old(self)@.jobs_done(now_ms),
            final(self).wf(),
            step is Done ==> final(self).ota@.ready(),
    {
        let ghost target = self@.jobs_done(now_ms);
        while self.slot < PENDING_QUEUE_SIZE
            invariant
                self.state@.wf(),
                self.ota.wf(),
                self.ota@.ready(),
                self.state@.state is Pending,
                self.state@.request.len() > 0,
                self.slot <= PENDING_QUEUE_SIZE,
                self@.jobs_done(now_ms) == target,
                target == old(self)@.jobs_done(now_ms),
            decreases PENDING_QUEUE_SIZE - self.slot,
        {
            let slot: usize = self.slot;
            let ghost before = self@;
            match self.config.pending_queue[slot] {
                None => {
                    self.slot = slot + 1;
                },
                Some(job) => {
                    match download::begin_job(&self.state, &mut self.ota, job) {
                        OtaStep::Reply(reply) => {
                            state::store_response(&mut self.state, reply.as_slice());
                            self.completed[slot] = true;
                            self.slot = slot + 1;
                        },
                        OtaStep::Flash(op) => {
                            proof {
                                let begun = download::job_begun(before.state, before.ota, job);
                                assert(self@ == (ServerModel { ota: begun.0, ..before }));
                            }
                            return TickStep::Flash(op);
                        },
                    }
                },
            }
        }
        pending::tick(&mut self.state, &mut self.config, self.completed, now_ms);
        self.slot = 0;
        self.completed = [false, false, false, false];
        assert(self.completed@ =~= seq![false, false, false, false]);
        TickStep::Done
    }
}

/// Whether the node must not send anything of its own accord.
pub fn tx_disabled(server: &UdsServer) -> (b: bool)
    ensures
        b == server@.state.tx_disabled,
{
    server.state.tx_disabled
}

/// Whether a response waits to be fetched.
pub fn response_ready(server: &UdsServer) -> (b: bool)
    ensures
        b == server@.state.response_pending,
{
    server.state.response_pending
}

/// Whether a response waits to be fetched; it then no longer waits.
pub fn take_response_pending(server: &mut UdsServer) -> (b: bool)
    ensures
        b == old(server)@.state.response_pending,
        final(server)@ == (ServerModel {
            state: UdsModel { response_pending: false, ..old(server)@.state },
            ..old(server)@
        }),
        old(server).wf() ==> final(server).wf(),
{
    let b = server.state.response_pending;
    server.state.response_pending = false;
    b
}

/// Handles a request, the first byte of which is the service id. `now_ms` is
/// the time from which the wait for queued work counts. Only a request that is
/// admitted has to fit the buffer.
pub fn dispatch(server: &mut UdsServer, request: &[u8], now_ms: u32) -> (r: DispatchResult)
    requires
        old(server).wf(),
        request@.len() <= REQUEST_MAX || admitted(
            old(server)@.state,
            old(server)@.config,
            request@,
        ) is Err,
    ensures
        ({
            let after = dispatched(old(server)@.state, old(server)@.config, request@, now_ms);
            &&& final(server)@ == (ServerModel { state: after.0, config: after.1, ..old(server)@ })
            &&& r == if after.0.state is Pending {
                DispatchResult::Pending
            } else {
                DispatchResult::Ready
            }
        }),
        final(server).wf(),
{
    dispatch_sid(&mut server.state, &mut server.config, request, now_ms);
    if server.state.state == SrvState::Pending {
        DispatchResult::Pending
    } else {
        DispatchResult::Ready
    }
}

/// A handler keeps the buffers within their limits, the request in flight
/// and the pending work.
#[verifier::rlimit(30)]
proof fn lemma_served_keeps(s: UdsModel, c: ConfigModel, handler: ServiceHandler, request: Seq<u8>)
    requires
        s.wf(),
    ensures
        served(s, c, handler, request).0.wf(),
        served(s, c, handler, request).0.request == s.request,
        s.state is Pending ==> served(s, c, handler, request).0.state is Pending,
{
    match handler {
        ServiceHandler::Session => session::lemma_keeps(s, c, request),
        ServiceHandler::EcuReset => reset::lemma_keeps(s, c.soft_reset, request),
        ServiceHandler::ClearDtc => {},
        ServiceHandler::ReadDtc => {},
        ServiceHandler::ReadDataById => read_data::lemma_keeps(s, c, request),
        ServiceHandler::WriteDataById => write_data::lemma_keeps(s, c, request),
        ServiceHandler::CommControl => comm_control::lemma_keeps(s, request),
        ServiceHandler::SecurityAccess => security::lemma_keeps(s, c, request),
        ServiceHandler::RoutineStart => routine::lemma_keeps(
            s,
            c,
            request,
            routine::asked(request),
        ),
        _ => {},
    }
}

/// Runs the handler of a service on the request in flight.
fn serve(state: &mut UdsState, config: &mut UdsConfig, handler: ServiceHandler, request: &[u8])
    ensures
        (final(state)@, final(config)@) == served(old(state)@, old(config)@, handler, request@),
{
    match handler {
        ServiceHandler::Session => session::handle(state, config, request),
        ServiceHandler::EcuReset => reset::handle(state, config, request),
        ServiceHandler::ClearDtc => dtc::handle_clear(state, request),
        ServiceHandler::ReadDtc => dtc::handle_read(state, request),
        ServiceHandler::ReadDataById => read_data::handle(state, config, request),
        ServiceHandler::WriteDataById => write_data::handle(state, config, request),
        ServiceHandler::CommControl => comm_control::handle(state, request),
        ServiceHandler::SecurityAccess => security::handle(state, config, request),
        ServiceHandler::RoutineStart => {
            routine::handle(state, config, request, routine::sub_of(request))
        },
        ServiceHandler::RequestDownload => {
            let _queued = download::try_queue_request(state, config);
        },
        ServiceHandler::TransferData => {
            let _queued = download::try_queue_transfer(state, config);
        },
        ServiceHandler::TransferExit => {
            let _queued = download::try_queue_exit(state, config);
        },
        ServiceHandler::TesterPresent => tester_present::handle(state, request),
    }
}

/// Routes a request to the handler of its service.
#[verifier::rlimit(30)]
fn dispatch_sid(state: &mut UdsState, config: &mut UdsConfig, request: &[u8], now_ms: u32)
    requires
        old(state)@.wf(),
        request@.len() <= REQUEST_MAX || admitted(old(state)@, old(config)@, request@) is Err,
    ensures
        (final(state)@, final(config)@) == dispatched(
            old(state)@,
            old(config)@,
            request@,
            now_ms,
        ),
        final(state)@.wf(),
        old(state)@.state is Pending ==> final(state)@.state is Pending,
        final(state)@.request == old(state)@.request || final(state)@.request.len() > 0,
        final(state)@.request == old(state)@.request ==> old(state)@.request.len() > 0
            || final(state)@.state == old(state)@.state,
{
    if request.len() == 0 {
        return;
    }
    let sid: u8 = request[0];
    if state.tx_disabled {
        let unlock = request.len() >= 2 && sid == comm_control::SID && request[1]
            == comm_control::ENABLE;
        if !unlock {
            state::store_negative(state, sid, Nrc::ConditionsNotCorrect);
            return;
        }
    }
    let entry = match config::find_service(&config.services, sid) {
        Some(entry) => entry,
        None => {
            state::store_negative(state, sid, Nrc::ServiceNotSupported);
            return;
        },
    };
    if !config::session_allowed(state.session, entry.session_access) {
        state::store_negative(state, sid, Nrc::ServiceNotSupportedInActiveSession);
        return;
    }
    if !config::security_allowed(state.security, entry.security_level) {
        state::store_negative(state, sid, Nrc::SecurityAccessDenied);
        return;
    }
    state.request_buf = slice_to_vec(request);
    state.request_tick_ms = now_ms;
    proof {
        lemma_served_keeps(state@, config@, entry.handler, request@);
    }
    serve(state, config, entry.handler, request);
}

/// Does queued work. Call it regularly with the current time.
pub fn tick(server: &mut UdsServer, now_ms: u32) -> (step: TickStep)
    requires
        old(server).wf(),
        old(server)@.ota.ready(),
    ensures
        (final(server)@, step) == old(server)@.ticked(now_ms),
        final(server).wf(),
        step is Done ==> final(server)@.ota.ready(),
{
    if server.state.state != SrvState::Pending {
        return TickStep::Done;
    }
    server.do_jobs(now_ms)
}

/// Goes on with a tick after a flash operation.
pub fn resume(server: &mut UdsServer, outcome: FlashOutcome, now_ms: u32) -> (step: TickStep)
    requires
        old(server).wf(),
        old(server)@.ota.expects(outcome),
    ensures
        (final(server)@, step) == old(server)@.resumed(outcome, now_ms),
        final(server).wf(),
        step is Done ==> final(server)@.ota.ready(),
{
    match ota::resume(&mut server.ota, outcome) {
        OtaStep::Reply(reply) => {
            state::store_response(&mut server.state, reply.as_slice());
            let slot: usize = server.slot;
            server.completed[slot] = true;
            server.slot = slot + 1;
            server.do_jobs(now_ms)
        },
        OtaStep::Flash(op) => TickStep::Flash(op),
    }
}

} // verus!
