//! Run-time state of the diagnostic server: session, security level, the
//! request in flight and the last response.

use vstd::prelude::*;
use vstd::slice::slice_subrange;
use vstd::slice::slice_to_vec;

use crate::uds::nrc::Nrc;

verus! {

/// Longest response the server keeps; anything beyond it is cut off.
pub const RESPONSE_MAX: usize = 7;

/// Longest request the server keeps.
pub const REQUEST_MAX: usize = 64;

/// Diagnostic session, numbered as on the wire.
#[derive(Copy, Clone, Debug, PartialEq, Eq, Structural)]
pub enum Session {
    Default,
    Programming,
    Extended,
}

impl Session {
    /// The sub-function byte that selects this session.
    pub open spec fn byte(self) -> u8 {
        match self {
            Session::Default => 0x01,
            Session::Programming => 0x02,
            Session::Extended => 0x03,
        }
    }

    /// `Some` exactly for the bytes of the three sessions.
    pub fn from_u8(v: u8) -> (s: Option<Session>)
        ensures
            match s {
                Some(session) => session.byte() == v,
                None => forall|session: Session| session.byte() != v,
            },
    {
        match v {
            0x01 => Some(Session::Default),
            0x02 => Some(Session::Programming),
            0x03 => Some(Session::Extended),
            _ => None,
        }
    }

    pub fn as_u8(self) -> (v: u8)
        ensures
            v == self.byte(),
    {
        match self {
            Session::Default => 0x01,
            Session::Programming => 0x02,
            Session::Extended => 0x03,
        }
    }
}

/// Two sessions with the same byte are the same session, so `from_u8`
/// undoes `as_u8`.
pub proof fn law_session_bytes_are_distinct(a: Session, b: Session)
    requires
        a.byte() == b.byte(),
    ensures
        a == b,
{
}

/// Security access level; `Locked` until a key has been verified.
#[derive(Copy, Clone, Debug, PartialEq, Eq, Structural)]
pub enum SecurityLevel {
    Locked,
    Sal1,
    Sal2,
    Sal3,
}

impl SecurityLevel {
    /// The level as a number, higher meaning more access.
    pub open spec fn rank(self) -> u8 {
        match self {
            SecurityLevel::Locked => 0,
            SecurityLevel::Sal1 => 1,
            SecurityLevel::Sal2 => 2,
            SecurityLevel::Sal3 => 3,
        }
    }

    /// The level with rank `v`; ranks above the highest give the highest.
    pub fn from_u8(v: u8) -> (s: SecurityLevel)
        ensures
            s.rank() == if v <= 3 { v } else { 3 },
    {
        match v {
            0 => SecurityLevel::Locked,
            1 => SecurityLevel::Sal1,
            2 => SecurityLevel::Sal2,
            _ => SecurityLevel::Sal3,
        }
    }

    /// The level with rank `v`; ranks that no level has give `Locked`.
    pub fn from_u8_or_locked(v: u8) -> (s: SecurityLevel)
        ensures
            s.rank() == if v <= 3 { v } else { 0 },
    {
        match v {
            1 => SecurityLevel::Sal1,
            2 => SecurityLevel::Sal2,
            3 => SecurityLevel::Sal3,
            _ => SecurityLevel::Locked,
        }
    }

    pub fn as_u8(self) -> (v: u8)
        ensures
            v == self.rank(),
    {
        match self {
            SecurityLevel::Locked => 0,
            SecurityLevel::Sal1 => 1,
            SecurityLevel::Sal2 => 2,
            SecurityLevel::Sal3 => 3,
        }
    }
}

/// Two levels with the same rank are the same level, so `from_u8` undoes
/// `as_u8`.
pub proof fn law_security_ranks_are_distinct(a: SecurityLevel, b: SecurityLevel)
    requires
        a.rank() == b.rank(),
    ensures
        a == b,
{
}

/// What the server is doing. `Pending` means that queued work has not
/// finished yet.
#[derive(Copy, Clone, Debug, PartialEq, Eq, Structural)]
pub enum SrvState {
    Idle,
    Parsing,
    Pending,
}

/// Server state. `request_buf` is the request in flight, `response_buf` the
/// last response; `response_pending` says that it has not been fetched yet.
pub struct UdsState {
    pub session: Session,
    pub security: SecurityLevel,
    /// For each security level: set by a seed request, cleared by the key
    /// that answers it.
    pub seed_sent: [bool; 3],
    /// The last seed of each security level.
    pub current_seed: [u32; 3],
    pub state: SrvState,
    pub request_buf: Vec<u8>,
    pub response_buf: Vec<u8>,
    pub response_pending: bool,
    pub request_tick_ms: u32,
    pub download_active: bool,
    pub transfer_sn: u8,
    /// Set while normal transmission is switched off; the server then
    /// refuses everything but the request that switches it on again.
    pub tx_disabled: bool,
    pub rx_disabled: bool,
    /// A reset has been accepted and not carried out yet.
    pub reset_requested: bool,
    /// Kind of the last accepted reset, 0 when there is none.
    pub reset_subfunc: u8,
    /// A session that was entered and that the application asked to be told
    /// of.
    pub session_entered: Option<Session>,
}

/// `UdsState` with its buffers as sequences.
#[verifier::ext_equal]
pub struct UdsModel {
    pub session: Session,
    pub security: SecurityLevel,
    pub seed_sent: Seq<bool>,
    pub current_seed: Seq<u32>,
    pub state: SrvState,
    pub request: Seq<u8>,
    pub response: Seq<u8>,
    pub response_pending: bool,
    pub request_tick_ms: u32,
    pub download_active: bool,
    pub transfer_sn: u8,
    pub tx_disabled: bool,
    pub rx_disabled: bool,
    pub reset_requested: bool,
    pub reset_subfunc: u8,
    pub session_entered: Option<Session>,
}

/// The first `RESPONSE_MAX` bytes of `payload`.
pub open spec fn clipped(payload: Seq<u8>) -> Seq<u8> {
    if payload.len() <= RESPONSE_MAX {
        payload
    } else {
        payload.take(RESPONSE_MAX as int)
    }
}

impl UdsModel {
    /// The state before any request.
    pub open spec fn initial() -> UdsModel {
        UdsModel {
            session: Session::Default,
            security: SecurityLevel::Locked,
            seed_sent: seq![false, false, false],
            current_seed: seq![0u32, 0, 0],
            state: SrvState::Idle,
            request: Seq::empty(),
            response: Seq::empty(),
            response_pending: false,
            request_tick_ms: 0,
            download_active: false,
            transfer_sn: 0,
            tx_disabled: false,
            rx_disabled: false,
            reset_requested: false,
            reset_subfunc: 0,
            session_entered: None,
        }
    }

    /// This state with `payload` as the response to send.
    pub open spec fn replied(self, payload: Seq<u8>) -> UdsModel {
        UdsModel { response: clipped(payload), response_pending: true, ..self }
    }

    /// This state with a refusal of `sid` as the response to send.
    pub open spec fn refused(self, sid: u8, nrc: Nrc) -> UdsModel {
        self.replied(nrc.refusal(sid))
    }

    /// The buffers are within their limits, and there is a seed for each
    /// level.
    pub open spec fn wf(self) -> bool {
        &&& self.seed_sent.len() == 3
        &&& self.current_seed.len() == 3
        &&& self.request.len() <= REQUEST_MAX
        &&& self.response.len() <= RESPONSE_MAX
    }
}

impl View for UdsState {
    type V = UdsModel;

    open spec fn view(&self) -> UdsModel {
        UdsModel {
            session: self.session,
            security: self.security,
            seed_sent: self.seed_sent@,
            current_seed: self.current_seed@,
            state: self.state,
            request: self.request_buf@,
            response: self.response_buf@,
            response_pending: self.response_pending,
            request_tick_ms: self.request_tick_ms,
            download_active: self.download_active,
            transfer_sn: self.transfer_sn,
            tx_disabled: self.tx_disabled,
            rx_disabled: self.rx_disabled,
            reset_requested: self.reset_requested,
            reset_subfunc: self.reset_subfunc,
            session_entered: self.session_entered,
        }
    }
}

impl UdsState {
    pub fn zeroed() -> (s: UdsState)
        ensures
            s@ == UdsModel::initial(),
            s@.wf(),
    {
        let s = UdsState {
            session: Session::Default,
            security: SecurityLevel::Locked,
            seed_sent: [false, false, false],
            current_seed: [0, 0, 0],
            state: SrvState::Idle,
            request_buf: Vec::new(),
            response_buf: Vec::new(),
            response_pending: false,
            request_tick_ms: 0,
            download_active: false,
            transfer_sn: 0,
            tx_disabled: false,
            rx_disabled: false,
            reset_requested: false,
            reset_subfunc: 0,
            session_entered: None,
        };
        assert(s@ =~= UdsModel::initial());
        s
    }
}

/// Stores a response, cut to `RESPONSE_MAX` bytes, and marks it as waiting.
/// Returns how many bytes were kept.
pub fn store_response(state: &mut UdsState, payload: &[u8]) -> (len: usize)
    ensures
        final(state)@ == old(state)@.replied(payload@),
        len == clipped(payload@).len(),
{
    let len: usize = if payload.len() <= RESPONSE_MAX { payload.len() } else { RESPONSE_MAX };
    state.response_buf = slice_to_vec(slice_subrange(payload, 0, len));
    state.response_pending = true;
    len
}

/// Stores the negative response `[0x7F, sid, nrc]`.
pub fn store_negative(state: &mut UdsState, sid: u8, nrc: Nrc) -> (len: usize)
    ensures
        final(state)@ == old(state)@.refused(sid, nrc),
        len == 3,
{
    let response = nrc.negative_response(sid);
    store_response(state, response.as_slice())
}

/// The last response.
pub fn load_response(state: &UdsState) -> (bytes: Vec<u8>)
    ensures
        bytes@ == state@.response,
{
    slice_to_vec(state.response_buf.as_slice())
}

/// The request in flight.
pub fn load_request(state: &UdsState) -> (bytes: Vec<u8>)
    ensures
        bytes@ == state@.request,
{
    slice_to_vec(state.request_buf.as_slice())
}

/// The byte of the active session, as data identifier 0xF186 reports it.
pub fn load_response_session_byte(state: &UdsState) -> (v: u8)
    ensures
        v == state@.session.byte(),
{
    state.session.as_u8()
}

/// A response of up to seven bytes is kept whole, a longer one cut to its first
/// seven; it then waits to be fetched, and nothing else changes.
pub proof fn law_responses_are_kept(s: UdsModel, payload: Seq<u8>)
    ensures
        s.replied(payload) == (UdsModel {
            response: if payload.len() <= 7 {
                payload
            } else {
                payload.subrange(0, 7)
            },
            response_pending: true,
            ..s
        }),
{
}

/// Sessions are numbered 1, 2 and 3, security levels from 0.
pub proof fn law_numbers_on_the_wire()
    ensures
        Session::Default.byte() == 1,
        Session::Programming.byte() == 2,
        Session::Extended.byte() == 3,
        SecurityLevel::Locked.rank() == 0,
        SecurityLevel::Sal1.rank() == 1,
        SecurityLevel::Sal2.rank() == 2,
        SecurityLevel::Sal3.rank() == 3,
{
}

} // verus!
