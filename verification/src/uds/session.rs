//! 0x10 DiagnosticSessionControl.
//!
//! ```text
//! [0x10, session] -> [0x50, session]
//! ```
//!
//! The programming and the extended session need security level 1. Entering
//! a session takes the security access back.

use vstd::prelude::*;

use crate::uds::config::ConfigModel;
use crate::uds::config::UdsConfig;
use crate::uds::nrc::Nrc;
use crate::uds::state;
use crate::uds::state::SecurityLevel;
use crate::uds::state::Session;
use crate::uds::state::UdsModel;
use crate::uds::state::UdsState;

verus! {

pub const SID: u8 = 0x10;

/// The session that a sub-function selects.
pub open spec fn selected(subfunc: u8) -> Option<Session> {
    if subfunc == 0x01 {
        Some(Session::Default)
    } else if subfunc == 0x02 {
        Some(Session::Programming)
    } else if subfunc == 0x03 {
        Some(Session::Extended)
    } else {
        None
    }
}

/// The state after the session was entered.
pub open spec fn entered(s: UdsModel, c: ConfigModel, session: Session) -> UdsModel {
    UdsModel {
        session,
        security: SecurityLevel::Locked,
        seed_sent: seq![false, false, false],
        session_entered: if c.announces(session) {
            Some(session)
        } else {
            s.session_entered
        },
        ..s
    }
}

/// The state after the request.
pub open spec fn handled(s: UdsModel, c: ConfigModel, req: Seq<u8>) -> UdsModel {
    if req.len() != 2 {
        s.refused(SID, Nrc::IncorrectMessageLengthOrInvalidFormat)
    } else {
        match selected(req[1]) {
            None => s.refused(SID, Nrc::SubFunctionNotSupported),
            Some(session) => if !(session is Default) && s.security.rank() < 1 {
                s.refused(SID, Nrc::SecurityAccessDenied)
            } else {
                entered(s, c, session).replied(seq![0x50u8, req[1]])
            },
        }
    }
}

pub fn handle(state: &mut UdsState, config: &UdsConfig, req: &[u8])
    ensures
        final(state)@ == handled(old(state)@, config@, req@),
{
    if req.len() != 2 {
        state::store_negative(state, SID, Nrc::IncorrectMessageLengthOrInvalidFormat);
        return;
    }
    let subfunc: u8 = req[1];
    match Session::from_u8(subfunc) {
        None => {
            proof {
                assert(Session::Default.byte() != subfunc);
                assert(Session::Programming.byte() != subfunc);
                assert(Session::Extended.byte() != subfunc);
            }
            state::store_negative(state, SID, Nrc::SubFunctionNotSupported);
        },
        Some(session) => {
            if session != Session::Default && state.security == SecurityLevel::Locked {
                state::store_negative(state, SID, Nrc::SecurityAccessDenied);
                return;
            }
            state.session = session;
            state.security = SecurityLevel::Locked;
            state.seed_sent = [false, false, false];
            assert(state.seed_sent@ =~= seq![false, false, false]);
            let announce = match session {
                Session::Default => config.on_default_session_enter,
                Session::Programming => config.on_programming_session_enter,
                Session::Extended => config.on_extended_session_enter,
            };
            if announce {
                state.session_entered = Some(session);
            }
            state::store_response(state, &[0x50, subfunc]);
        },
    }
}

/// The session that was entered since the last call, if the application
/// asked to be told of it.
pub fn take_session_entered(state: &mut UdsState) -> (session: Option<Session>)
    ensures
        session == old(state)@.session_entered,
        final(state)@ == (UdsModel { session_entered: None, ..old(state)@ }),
{
    let session = state.session_entered;
    state.session_entered = None;
    session
}

/// Entering a session takes the security access back, whatever it was.
pub proof fn law_entering_a_session_locks(s: UdsModel, c: ConfigModel, req: Seq<u8>)
    requires
        handled(s, c, req).session != s.session,
    ensures
        handled(s, c, req).security is Locked,
        handled(s, c, req).seed_sent == seq![false, false, false],
{
}

/// A refused request leaves session and security access as they were.
pub proof fn law_refusal_keeps_session(s: UdsModel, c: ConfigModel, req: Seq<u8>)
    requires
        handled(s, c, req).response[0] == 0x7F,
    ensures
        handled(s, c, req).session == s.session,
        handled(s, c, req).security == s.security,
{
}

/// Without security access only the default session can be entered.
pub proof fn law_privileged_sessions_need_a_key(s: UdsModel, c: ConfigModel, req: Seq<u8>)
    requires
        s.security is Locked,
        s.session is Default,
    ensures
        handled(s, c, req).session is Default,
{
}

/// The handler changes neither the request in flight nor the pending work,
/// and keeps the buffers within their limits.
pub proof fn lemma_keeps(s: UdsModel, c: ConfigModel, req: Seq<u8>)
    requires
        s.wf(),
    ensures
        handled(s, c, req).wf(),
        handled(s, c, req).request == s.request,
        handled(s, c, req).state == s.state,
{
}

} // verus!
