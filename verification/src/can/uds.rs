//! Diagnostic gateway behind the object dictionary entry 0x2F00.0.
//!
//! A client writes a request `[SID, ...]` to the entry and reads the
//! response back from it. Responses are at most four bytes long, so that
//! they fit an expedited transfer.
//!
//! | SID  | Name                  | Notes |
//! |------|-----------------------|-------|
//! | 0x10 | DiagnosticSession     | Default (0x01), Programming (0x02) |
//! | 0x11 | ECUReset              | hard reset (0x01) |
//! | 0x14 | ClearDiagnosticInfo   | always acknowledged |
//! | 0x19 | ReadDTCInformation    | sub-function 0x02: no trouble codes |
//! | 0x22 | ReadDataByIdentifier  | 0xF186, the active session |
//! | 0x2E | WriteDataByIdentifier | no identifier is writable |
//! | 0x27 | SecurityAccess        | seed 0xA5A5, key 0xA5B7 |
//! | 0x3E | TesterPresent         | 0x00, and 0x80 for no response |
//! | 0x34, 0x36, 0x37 | firmware update | Programming session only |

use vstd::prelude::*;
use vstd::slice::slice_subrange;
use vstd::slice::slice_to_vec;

use crate::bytes;
use crate::can::od::OdValue;
use crate::drivers::flash::FlashOp;
use crate::drivers::flash::FlashOutcome;
use crate::ota;
use crate::ota::Ota;
use crate::ota::OtaModel;
use crate::ota::OtaStep;
use crate::ota::StepModel;
use crate::uds::nrc::Nrc;

verus! {

pub const SESSION_DEFAULT: u8 = 0x01;

pub const SESSION_PROGRAMMING: u8 = 0x02;

pub const SID_DIAGNOSTIC_SESSION_CONTROL: u8 = 0x10;

pub const SID_ECU_RESET: u8 = 0x11;

pub const SID_CLEAR_DIAGNOSTIC_INFORMATION: u8 = 0x14;

pub const SID_READ_DTC_INFORMATION: u8 = 0x19;

pub const SID_READ_DATA_BY_IDENTIFIER: u8 = 0x22;

pub const SID_WRITE_DATA_BY_IDENTIFIER: u8 = 0x2E;

pub const SID_SECURITY_ACCESS: u8 = 0x27;

pub const SID_TESTER_PRESENT: u8 = 0x3E;

pub const SID_REQUEST_DOWNLOAD: u8 = 0x34;

pub const SID_TRANSFER_DATA: u8 = 0x36;

pub const SID_REQUEST_TRANSFER_EXIT: u8 = 0x37;

/// The key that answers the seed.
pub const SECURITY_KEY: u16 = 0xA5B7;

/// Longest response of a service of the gateway itself.
pub const POSITIVE_MAX: usize = 4;

/// Longest response that the gateway keeps.
pub const STORED_MAX: usize = 7;

/// Gateway state: session, whether the key has been given, whether a reset
/// is due, and the last response.
pub struct UdsGateway {
    pub session: u8,
    pub unlocked: bool,
    pub reset_requested: bool,
    pub response: Vec<u8>,
}

/// `UdsGateway` with the response as a sequence.
#[verifier::ext_equal]
pub struct GatewayModel {
    pub session: u8,
    pub unlocked: bool,
    pub reset_requested: bool,
    pub response: Seq<u8>,
}

/// What a request ends with: the length of the stored response, or work for
/// the flash controller after which the request goes on.
#[derive(Copy, Clone, Debug, PartialEq, Eq, Structural)]
pub enum GatewayStep {
    Stored(usize),
    Flash(FlashOp),
}

/// The first `STORED_MAX` bytes of `payload`.
pub open spec fn kept(payload: Seq<u8>) -> Seq<u8> {
    if payload.len() <= STORED_MAX {
        payload
    } else {
        payload.take(STORED_MAX as int)
    }
}

/// The answer to a positive response longer than the gateway allows.
pub open spec fn too_long(payload: Seq<u8>) -> Seq<u8> {
    Nrc::ResponseTooLong.refusal(
        if payload[0] >= 0x40 {
            (payload[0] - 0x40) as u8
        } else {
            0
        },
    )
}

/// A service that belongs to the firmware update.
pub open spec fn is_update_service(sid: u8) -> bool {
    sid == SID_REQUEST_DOWNLOAD || sid == SID_TRANSFER_DATA || sid == SID_REQUEST_TRANSFER_EXIT
}

/// What the update machine does with a request of one of its services.
pub open spec fn update_begun(o: OtaModel, sid: u8, payload: Seq<u8>) -> (OtaModel, StepModel) {
    if sid == SID_REQUEST_DOWNLOAD {
        o.request_download(payload)
    } else if sid == SID_TRANSFER_DATA {
        o.transfer_data(payload)
    } else {
        o.transfer_exit(payload)
    }
}

impl View for UdsGateway {
    type V = GatewayModel;

    open spec fn view(&self) -> GatewayModel {
        GatewayModel {
            session: self.session,
            unlocked: self.unlocked,
            reset_requested: self.reset_requested,
            response: self.response@,
        }
    }
}

impl GatewayModel {
    pub open spec fn initial() -> GatewayModel {
        GatewayModel {
            session: SESSION_DEFAULT,
            unlocked: false,
            reset_requested: false,
            response: Seq::empty(),
        }
    }

    pub open spec fn wf(self) -> bool {
        self.response.len() <= STORED_MAX
    }

    /// This gateway with `payload` as its response.
    pub open spec fn replied(self, payload: Seq<u8>) -> GatewayModel {
        GatewayModel { response: payload, ..self }
    }

    /// This gateway with a refusal of `sid` as its response.
    pub open spec fn refused(self, sid: u8, nrc: Nrc) -> GatewayModel {
        self.replied(nrc.refusal(sid))
    }

    pub open spec fn session_control(self, payload: Seq<u8>) -> GatewayModel {
        if payload.len() != 1 {
            self.refused(
                SID_DIAGNOSTIC_SESSION_CONTROL,
                Nrc::IncorrectMessageLengthOrInvalidFormat,
            )
        } else if payload[0] == SESSION_DEFAULT || payload[0] == SESSION_PROGRAMMING {
            GatewayModel { session: payload[0], unlocked: false, ..self }.replied(
                seq![0x50u8, payload[0]],
            )
        } else {
            self.refused(SID_DIAGNOSTIC_SESSION_CONTROL, Nrc::SubFunctionNotSupported)
        }
    }

    pub open spec fn ecu_reset(self, payload: Seq<u8>) -> GatewayModel {
        if payload.len() != 1 {
            self.refused(SID_ECU_RESET, Nrc::IncorrectMessageLengthOrInvalidFormat)
        } else if payload[0] == 0x01 {
            GatewayModel { reset_requested: true, ..self }.replied(seq![0x51u8, 0x01])
        } else {
            self.refused(SID_ECU_RESET, Nrc::SubFunctionNotSupported)
        }
    }

    pub open spec fn clear_dtc(self, payload: Seq<u8>) -> GatewayModel {
        if payload.len() != 3 {
            self.refused(
                SID_CLEAR_DIAGNOSTIC_INFORMATION,
                Nrc::IncorrectMessageLengthOrInvalidFormat,
            )
        } else {
            self.replied(seq![0x54u8])
        }
    }

    pub open spec fn read_dtc(self, payload: Seq<u8>) -> GatewayModel {
        if payload.len() < 2 {
            self.refused(SID_READ_DTC_INFORMATION, Nrc::IncorrectMessageLengthOrInvalidFormat)
        } else if payload[0] != 0x02 {
            self.refused(SID_READ_DTC_INFORMATION, Nrc::SubFunctionNotSupported)
        } else {
            self.replied(seq![0x59u8, 0x02, 0x00, 0x00])
        }
    }

    pub open spec fn read_did(self, payload: Seq<u8>) -> GatewayModel {
        if payload.len() != 2 {
            self.refused(SID_READ_DATA_BY_IDENTIFIER, Nrc::IncorrectMessageLengthOrInvalidFormat)
        } else if payload[0] == 0x86 && payload[1] == 0xF1 {
            self.replied(seq![0x62u8, 0x86, 0xF1, self.session])
        } else {
            self.refused(SID_READ_DATA_BY_IDENTIFIER, Nrc::RequestOutOfRange)
        }
    }

    pub open spec fn write_did(self, payload: Seq<u8>) -> GatewayModel {
        if payload.len() < 2 {
            self.refused(SID_WRITE_DATA_BY_IDENTIFIER, Nrc::IncorrectMessageLengthOrInvalidFormat)
        } else {
            self.refused(SID_WRITE_DATA_BY_IDENTIFIER, Nrc::RequestOutOfRange)
        }
    }

    pub open spec fn security_access(self, payload: Seq<u8>) -> GatewayModel {
        if payload.len() == 0 {
            self.refused(SID_SECURITY_ACCESS, Nrc::IncorrectMessageLengthOrInvalidFormat)
        } else if payload[0] == 0x01 {
            if self.unlocked {
                self.refused(SID_SECURITY_ACCESS, Nrc::SecurityAccessDenied)
            } else {
                self.replied(seq![0x67u8, 0x01, 0xA5, 0xA5])
            }
        } else if payload[0] == 0x02 {
            if payload.len() != 3 {
                self.refused(SID_SECURITY_ACCESS, Nrc::IncorrectMessageLengthOrInvalidFormat)
            } else if bytes::le_u16(payload[1], payload[2]) == SECURITY_KEY {
                GatewayModel { unlocked: true, ..self }.replied(seq![0x67u8, 0x02])
            } else {
                self.refused(SID_SECURITY_ACCESS, Nrc::SecurityAccessDenied)
            }
        } else {
            self.refused(SID_SECURITY_ACCESS, Nrc::SubFunctionNotSupported)
        }
    }

    pub open spec fn tester_present(self, payload: Seq<u8>) -> GatewayModel {
        if payload.len() != 1 {
            self.refused(SID_TESTER_PRESENT, Nrc::IncorrectMessageLengthOrInvalidFormat)
        } else if payload[0] == 0x00 {
            self.replied(seq![0x7Eu8, 0x00])
        } else if payload[0] == 0x80 {
            self.replied(Seq::empty())
        } else {
            self.refused(SID_TESTER_PRESENT, Nrc::SubFunctionNotSupported)
        }
    }

    /// The gateway after a request that it answers by itself.
    pub open spec fn served(self, request: Seq<u8>) -> GatewayModel {
        let sid = request[0];
        let payload = request.skip(1);
        if request.len() == 0 {
            self.refused(0, Nrc::IncorrectMessageLengthOrInvalidFormat)
        } else if sid == SID_DIAGNOSTIC_SESSION_CONTROL {
            self.session_control(payload)
        } else if sid == SID_ECU_RESET {
            self.ecu_reset(payload)
        } else if sid == SID_CLEAR_DIAGNOSTIC_INFORMATION {
            self.clear_dtc(payload)
        } else if sid == SID_READ_DTC_INFORMATION {
            self.read_dtc(payload)
        } else if sid == SID_READ_DATA_BY_IDENTIFIER {
            self.read_did(payload)
        } else if sid == SID_WRITE_DATA_BY_IDENTIFIER {
            self.write_did(payload)
        } else if sid == SID_SECURITY_ACCESS {
            self.security_access(payload)
        } else if sid == SID_TESTER_PRESENT {
            self.tester_present(payload)
        } else if is_update_service(sid) {
            self.refused(sid, Nrc::ConditionsNotCorrect)
        } else {
            self.refused(sid, Nrc::SubFunctionNotSupported)
        }
    }

    /// Whether the request goes to the update machine.
    pub open spec fn forwards(self, request: Seq<u8>) -> bool {
        &&& request.len() > 0
        &&& is_update_service(request[0])
        &&& self.session == SESSION_PROGRAMMING
    }

    /// This gateway after the update machine made `step`.
    pub open spec fn updated(self, step: StepModel) -> (GatewayModel, GatewayStep) {
        match step {
            StepModel::Reply(reply) => (
                self.replied(kept(reply)),
                GatewayStep::Stored(kept(reply).len() as usize),
            ),
            StepModel::Flash(op) => (self, GatewayStep::Flash(op)),
        }
    }

    /// Gateway, update machine and step after a request.
    pub open spec fn dispatched(self, o: OtaModel, request: Seq<u8>) -> (
        GatewayModel,
        OtaModel,
        GatewayStep,
    ) {
        if self.forwards(request) {
            let begun = update_begun(o, request[0], request.skip(1));
            let after = self.updated(begun.1);
            (after.0, begun.0, after.1)
        } else {
            let after = self.served(request);
            (after, o, GatewayStep::Stored(after.response.len() as usize))
        }
    }
}

impl UdsGateway {
    pub fn new() -> (g: UdsGateway)
        ensures
            g@ == GatewayModel::initial(),
            g@.wf(),
    {
        UdsGateway {
            session: SESSION_DEFAULT,
            unlocked: false,
            reset_requested: false,
            response: Vec::new(),
        }
    }
}

/// Stores a response made elsewhere, cut to `STORED_MAX` bytes; returns how
/// many bytes were kept.
pub fn store_external_response(gateway: &mut UdsGateway, payload: &[u8]) -> (len: usize)
    ensures
        final(gateway)@ == old(gateway)@.replied(kept(payload@)),
        len == kept(payload@).len(),
{
    let len: usize = if payload.len() <= STORED_MAX { payload.len() } else { STORED_MAX };
    gateway.response = slice_to_vec(slice_subrange(payload, 0, len));
    len
}

/// Stores a positive response. One of more than four bytes is answered with
/// a refusal instead.
pub fn store_positive(gateway: &mut UdsGateway, payload: &[u8]) -> (len: usize)
    ensures
        final(gateway)@ == old(gateway)@.replied(
            if payload@.len() > POSITIVE_MAX {
                too_long(payload@)
            } else {
                payload@
            },
        ),
        len == final(gateway)@.response.len(),
{
    if payload.len() > POSITIVE_MAX {
        let sid: u8 = payload[0].saturating_sub(0x40);
        return store_negative(gateway, sid, Nrc::ResponseTooLong);
    }
    store_external_response(gateway, payload)
}

/// Stores the negative response `[0x7F, sid, nrc]`.
pub fn store_negative(gateway: &mut UdsGateway, sid: u8, nrc: Nrc) -> (len: usize)
    ensures
        final(gateway)@ == old(gateway)@.refused(sid, nrc),
        len == 3,
{
    let response = nrc.negative_response(sid);
    store_external_response(gateway, response.as_slice())
}

/// The first four bytes of the last response, as a dictionary value.
pub fn load_response(gateway: &UdsGateway) -> (value: OdValue)
    ensures
        value.wf(),
        value@ == if gateway@.response.len() <= POSITIVE_MAX {
            gateway@.response
        } else {
            gateway@.response.take(POSITIVE_MAX as int)
        },
{
    let n: usize = if gateway.response.len() <= POSITIVE_MAX {
        gateway.response.len()
    } else {
        POSITIVE_MAX
    };
    OdValue::from_slice(slice_subrange(gateway.response.as_slice(), 0, n))
}

/// True once after a reset was accepted; the caller then resets.
pub fn take_reset_request(gateway: &mut UdsGateway) -> (requested: bool)
    ensures
        requested == old(gateway)@.reset_requested,
        final(gateway)@ == (GatewayModel { reset_requested: false, ..old(gateway)@ }),
{
    let requested = gateway.reset_requested;
    gateway.reset_requested = false;
    requested
}

fn handle_session_control(gateway: &mut UdsGateway, payload: &[u8])
    ensures
        final(gateway)@ == old(gateway)@.session_control(payload@),
{
    if payload.len() != 1 {
        store_negative(
            gateway,
            SID_DIAGNOSTIC_SESSION_CONTROL,
            Nrc::IncorrectMessageLengthOrInvalidFormat,
        );
        return;
    }
    let subfunc: u8 = payload[0];
    if subfunc == SESSION_DEFAULT || subfunc == SESSION_PROGRAMMING {
        gateway.session = subfunc;
        gateway.unlocked = false;
        store_positive(gateway, &[SID_DIAGNOSTIC_SESSION_CONTROL + 0x40, subfunc]);
    } else {
        store_negative(gateway, SID_DIAGNOSTIC_SESSION_CONTROL, Nrc::SubFunctionNotSupported);
    }
}

fn handle_ecu_reset(gateway: &mut UdsGateway, payload: &[u8])
    ensures
        final(gateway)@ == old(gateway)@.ecu_reset(payload@),
{
    if payload.len() != 1 {
        store_negative(gateway, SID_ECU_RESET, Nrc::IncorrectMessageLengthOrInvalidFormat);
    } else if payload[0] == 0x01 {
        gateway.reset_requested = true;
        store_positive(gateway, &[SID_ECU_RESET + 0x40, 0x01]);
    } else {
        store_negative(gateway, SID_ECU_RESET, Nrc::SubFunctionNotSupported);
    }
}

fn handle_clear_dtc(gateway: &mut UdsGateway, payload: &[u8])
    ensures
        final(gateway)@ == old(gateway)@.clear_dtc(payload@),
{
    if payload.len() != 3 {
        store_negative(
            gateway,
            SID_CLEAR_DIAGNOSTIC_INFORMATION,
            Nrc::IncorrectMessageLengthOrInvalidFormat,
        );
        return;
    }
    store_positive(gateway, &[SID_CLEAR_DIAGNOSTIC_INFORMATION + 0x40]);
}

fn handle_read_dtc(gateway: &mut UdsGateway, payload: &[u8])
    ensures
        final(gateway)@ == old(gateway)@.read_dtc(payload@),
{
    if payload.len() < 2 {
        store_negative(
            gateway,
            SID_READ_DTC_INFORMATION,
            Nrc::IncorrectMessageLengthOrInvalidFormat,
        );
        return;
    }
    if payload[0] != 0x02 {
        store_negative(gateway, SID_READ_DTC_INFORMATION, Nrc::SubFunctionNotSupported);
        return;
    }
    store_positive(gateway, &[SID_READ_DTC_INFORMATION + 0x40, 0x02, 0x00, 0x00]);
}

fn handle_read_did(gateway: &mut UdsGateway, payload: &[u8])
    ensures
        final(gateway)@ == old(gateway)@.read_did(payload@),
{
    if payload.len() != 2 {
        store_negative(
            gateway,
            SID_READ_DATA_BY_IDENTIFIER,
            Nrc::IncorrectMessageLengthOrInvalidFormat,
        );
    } else if payload[0] == 0x86 && payload[1] == 0xF1 {
        let session: u8 = gateway.session;
        store_positive(
            gateway,
            &[SID_READ_DATA_BY_IDENTIFIER + 0x40, payload[0], payload[1], session],
        );
    } else {
        store_negative(gateway, SID_READ_DATA_BY_IDENTIFIER, Nrc::RequestOutOfRange);
    }
}

fn handle_write_did(gateway: &mut UdsGateway, payload: &[u8])
    ensures
        final(gateway)@ == old(gateway)@.write_did(payload@),
{
    if payload.len() < 2 {
        store_negative(
            gateway,
            SID_WRITE_DATA_BY_IDENTIFIER,
            Nrc::IncorrectMessageLengthOrInvalidFormat,
        );
        return;
    }
    store_negative(gateway, SID_WRITE_DATA_BY_IDENTIFIER, Nrc::RequestOutOfRange);
}

fn handle_security_access(gateway: &mut UdsGateway, payload: &[u8])
    ensures
        final(gateway)@ == old(gateway)@.security_access(payload@),
{
    if payload.len() == 0 {
        store_negative(gateway, SID_SECURITY_ACCESS, Nrc::IncorrectMessageLengthOrInvalidFormat);
        return;
    }
    match payload[0] {
        0x01 => {
            if gateway.unlocked {
                store_negative(gateway, SID_SECURITY_ACCESS, Nrc::SecurityAccessDenied);
            } else {
                store_positive(gateway, &[SID_SECURITY_ACCESS + 0x40, 0x01, 0xA5, 0xA5]);
            }
        },
        0x02 => {
            if payload.len() != 3 {
                store_negative(
                    gateway,
                    SID_SECURITY_ACCESS,
                    Nrc::IncorrectMessageLengthOrInvalidFormat,
                );
                return;
            }
            let key: u16 = bytes::u16_from_le(payload[1], payload[2]);
            if key == SECURITY_KEY {
                gateway.unlocked = true;
                store_positive(gateway, &[SID_SECURITY_ACCESS + 0x40, 0x02]);
            } else {
                store_negative(gateway, SID_SECURITY_ACCESS, Nrc::SecurityAccessDenied);
            }
        },
        _ => {
            store_negative(gateway, SID_SECURITY_ACCESS, Nrc::SubFunctionNotSupported);
        },
    }
}

fn handle_tester_present(gateway: &mut UdsGateway, payload: &[u8])
    ensures
        final(gateway)@ == old(gateway)@.tester_present(payload@),
{
    if payload.len() != 1 {
        store_negative(gateway, SID_TESTER_PRESENT, Nrc::IncorrectMessageLengthOrInvalidFormat);
        return;
    }
    let subfunc: u8 = payload[0];
    if subfunc % 0x80 == 0x00 {
        if subfunc >= 0x80 {
            store_positive(gateway, &[]);
        } else {
            store_positive(gateway, &[SID_TESTER_PRESENT + 0x40, 0x00]);
        }
    } else {
        store_negative(gateway, SID_TESTER_PRESENT, Nrc::SubFunctionNotSupported);
    }
}

/// Stores what the update machine answered, or passes its flash work on.
fn finish_update(gateway: &mut UdsGateway, step: OtaStep) -> (r: GatewayStep)
    ensures
        (final(gateway)@, r) == old(gateway)@.updated(step@),
{
    match step {
        OtaStep::Reply(reply) => {
            let len: usize = store_external_response(gateway, reply.as_slice());
            GatewayStep::Stored(len)
        },
        OtaStep::Flash(op) => GatewayStep::Flash(op),
    }
}

/// Handles a request and stores the response. An update service that needs
/// the flash controller stops there; `resume` goes on.
pub fn dispatch(gateway: &mut UdsGateway, ota: &mut Ota, request: &[u8]) -> (step: GatewayStep)
    requires
        old(ota).wf(),
        old(ota)@.ready(),
    ensures
        (final(gateway)@, final(ota)@, step) == old(gateway)@.dispatched(old(ota)@, request@),
        final(ota).wf(),
        old(gateway)@.wf() ==> final(gateway)@.wf(),
{
    if request.len() == 0 {
        let len: usize = store_negative(gateway, 0, Nrc::IncorrectMessageLengthOrInvalidFormat);
        return GatewayStep::Stored(len);
    }
    let sid: u8 = request[0];
    let payload = slice_subrange(request, 1, request.len());
    assert(payload@ =~= request@.skip(1));
    if sid == SID_REQUEST_DOWNLOAD || sid == SID_TRANSFER_DATA || sid
        == SID_REQUEST_TRANSFER_EXIT {
        if gateway.session != SESSION_PROGRAMMING {
            let len: usize = store_negative(gateway, sid, Nrc::ConditionsNotCorrect);
            return GatewayStep::Stored(len);
        }
        let step = if sid == SID_REQUEST_DOWNLOAD {
            ota::handle_request_download(ota, payload)
        } else if sid == SID_TRANSFER_DATA {
            ota::handle_transfer_data(ota, payload)
        } else {
            ota::handle_transfer_exit(ota, payload)
        };
        return finish_update(gateway, step);
    }
    match sid {
        SID_DIAGNOSTIC_SESSION_CONTROL => handle_session_control(gateway, payload),
        SID_ECU_RESET => handle_ecu_reset(gateway, payload),
        SID_CLEAR_DIAGNOSTIC_INFORMATION => handle_clear_dtc(gateway, payload),
        SID_READ_DTC_INFORMATION => handle_read_dtc(gateway, payload),
        SID_READ_DATA_BY_IDENTIFIER => handle_read_did(gateway, payload),
        SID_WRITE_DATA_BY_IDENTIFIER => handle_write_did(gateway, payload),
        SID_SECURITY_ACCESS => handle_security_access(gateway, payload),
        SID_TESTER_PRESENT => handle_tester_present(gateway, payload),
        _ => {
            store_negative(gateway, sid, Nrc::SubFunctionNotSupported);
        },
    }
    GatewayStep::Stored(gateway.response.len())
}

/// Goes on with an update service after its flash operation.
pub fn resume(gateway: &mut UdsGateway, ota: &mut Ota, outcome: FlashOutcome) -> (step: GatewayStep)
    requires
        old(ota).wf(),
        old(ota)@.expects(outcome),
    ensures
        final(ota)@ == old(ota)@.resumed(outcome).0,
        (final(gateway)@, step) == old(gateway)@.updated(old(ota)@.resumed(outcome).1),
        final(ota).wf(),
        old(gateway)@.wf() ==> final(gateway)@.wf(),
{
    let step = ota::resume(ota, outcome);
    finish_update(gateway, step)
}

/// Changing the session takes the security access back.
pub proof fn law_session_change_locks(g: GatewayModel, o: OtaModel, request: Seq<u8>)
    requires
        g.dispatched(o, request).0.session != g.session,
    ensures
        !g.dispatched(o, request).0.unlocked,
{
}

/// Only the right key unlocks.
pub proof fn law_unlocking_needs_the_key(g: GatewayModel, o: OtaModel, request: Seq<u8>)
    requires
        !g.unlocked,
        g.dispatched(o, request).0.unlocked,
    ensures
        request == seq![SID_SECURITY_ACCESS, 0x02u8] + bytes::u16_le(SECURITY_KEY),
{
    assert(request.skip(1).len() == 3);
    assert(request =~= seq![SID_SECURITY_ACCESS, 0x02u8] + bytes::u16_le(SECURITY_KEY));
}

/// Outside the programming session the update services are refused and the
/// update machine is left alone.
pub proof fn law_update_needs_programming_session(g: GatewayModel, o: OtaModel, request: Seq<u8>)
    requires
        request.len() > 0,
        is_update_service(request[0]),
        g.session != SESSION_PROGRAMMING,
    ensures
        g.dispatched(o, request).0 == g.refused(request[0], Nrc::ConditionsNotCorrect),
        g.dispatched(o, request).1 == o,
{
}

/// The active session can be read back after it was selected.
pub proof fn law_session_reads_back(g: GatewayModel, o: OtaModel, session: u8)
    requires
        session == SESSION_DEFAULT || session == SESSION_PROGRAMMING,
    ensures
        ({
            let selected = g.dispatched(o, seq![SID_DIAGNOSTIC_SESSION_CONTROL, session]).0;
            let read = selected.dispatched(
                o,
                seq![SID_READ_DATA_BY_IDENTIFIER, 0x86u8, 0xF1u8],
            ).0;
            read.response == seq![0x62u8, 0x86, 0xF1, session]
        }),
{
    let select = seq![SID_DIAGNOSTIC_SESSION_CONTROL, session];
    let read = seq![SID_READ_DATA_BY_IDENTIFIER, 0x86u8, 0xF1u8];
    assert(select.skip(1) =~= seq![session]);
    assert(read.skip(1) =~= seq![0x86u8, 0xF1u8]);
}

} // verus!
