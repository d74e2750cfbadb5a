//! 0x31 RoutineControl.
//!
//! ```text
//! [0x31, control, rid_hi, rid_lo, data...] -> [0x71, control, rid_hi, rid_lo, result...]
//! ```
//!
//! Control 0x01 starts a routine, 0x02 stops it, 0x03 asks for its result.
//! Each has a table of its own.

use vstd::prelude::*;
use vstd::slice::slice_subrange;

use crate::uds::config;
use crate::uds::config::ConfigModel;
use crate::uds::config::Routine;
use crate::uds::config::RoutineEntry;
use crate::uds::config::UdsConfig;
use crate::uds::nrc::Nrc;
use crate::uds::state;
use crate::uds::state::UdsModel;
use crate::uds::state::UdsState;

verus! {

pub const SID: u8 = 0x31;

/// Most result bytes that a routine gives.
pub const RESULT_MAX: usize = 8;

/// What is asked of a routine.
#[derive(Copy, Clone, Debug, PartialEq, Eq, Structural)]
pub enum RoutineSub {
    Start,
    Stop,
    Result,
}

/// What a request asks of a routine. Everything but 0x02 and 0x03 counts as
/// a start.
pub open spec fn asked(req: Seq<u8>) -> RoutineSub {
    if req.len() >= 2 && req[1] == 0x02 {
        RoutineSub::Stop
    } else if req.len() >= 2 && req[1] == 0x03 {
        RoutineSub::Result
    } else {
        RoutineSub::Start
    }
}

/// The table for what is asked.
pub open spec fn table_for(c: ConfigModel, sub: RoutineSub) -> Seq<RoutineEntry> {
    match sub {
        RoutineSub::Start => c.routines_start,
        RoutineSub::Stop => c.routines_stop,
        RoutineSub::Result => c.routines_result,
    }
}

/// The result of a routine.
pub open spec fn result_of(routine: Routine) -> Seq<u8> {
    match routine {
        Routine::Noop => Seq::empty(),
        Routine::CheckPreconditions => seq![0x00u8],
    }
}

/// The state after the routine was run.
pub open spec fn answered(s: UdsModel, req: Seq<u8>, result: Result<Seq<u8>, Nrc>) -> UdsModel {
    match result {
        Ok(result) => s.replied(seq![0x71u8, req[1], req[2], req[3]] + result),
        Err(nrc) => s.refused(SID, nrc),
    }
}

/// The state after the request.
pub open spec fn handled(s: UdsModel, c: ConfigModel, req: Seq<u8>, sub: RoutineSub) -> UdsModel {
    if req.len() < 4 {
        s.refused(SID, Nrc::IncorrectMessageLengthOrInvalidFormat)
    } else {
        match config::routine_of(table_for(c, sub), (0x100 * req[2] + req[3]) as u16) {
            None => s.refused(SID, Nrc::RequestOutOfRange),
            Some(entry) => if !config::admits(entry.session_access, s.session) {
                s.refused(SID, Nrc::SubFunctionNotSupportedInActiveSession)
            } else if s.security.rank() < entry.security_level {
                s.refused(SID, Nrc::SecurityAccessDenied)
            } else {
                answered(s, req, Ok(result_of(entry.routine)))
            },
        }
    }
}

/// What a request asks of a routine.
pub fn sub_of(req: &[u8]) -> (sub: RoutineSub)
    ensures
        sub == asked(req@),
{
    if req.len() >= 2 && req[1] == 0x02 {
        RoutineSub::Stop
    } else if req.len() >= 2 && req[1] == 0x03 {
        RoutineSub::Result
    } else {
        RoutineSub::Start
    }
}

/// Answers a request with the result of its routine, or with the reason why
/// there is none.
pub fn respond(state: &mut UdsState, req: &[u8], result: Result<&[u8], Nrc>)
    requires
        req@.len() >= 4,
        result matches Ok(r) ==> r@.len() <= RESULT_MAX,
    ensures
        final(state)@ == answered(
            old(state)@,
            req@,
            match result {
                Ok(r) => Ok(r@),
                Err(nrc) => Err(nrc),
            },
        ),
{
    match result {
        Ok(r) => {
            let mut out: Vec<u8> = vec![0x71, req[1], req[2], req[3]];
            let ghost head = out@;
            let mut i: usize = 0;
            while i < r.len()
                invariant
                    i <= r@.len(),
                    out@ == head + r@.take(i as int),
                decreases r.len() - i,
            {
                out.push(r[i]);
                assert(r@.take(i + 1) =~= r@.take(i as int).push(r@[i as int]));
                i = i + 1;
            }
            assert(r@.take(i as int) =~= r@);
            assert(head =~= seq![0x71u8, req@[1], req@[2], req@[3]]);
            state::store_response(state, out.as_slice());
        },
        Err(nrc) => {
            state::store_negative(state, SID, nrc);
        },
    }
}

pub fn handle(state: &mut UdsState, config: &UdsConfig, req: &[u8], sub: RoutineSub)
    ensures
        final(state)@ == handled(old(state)@, config@, req@, sub),
{
    if req.len() < 4 {
        state::store_negative(state, SID, Nrc::IncorrectMessageLengthOrInvalidFormat);
        return;
    }
    let rid: u16 = 0x100 * (req[2] as u16) + req[3] as u16;
    let found = match sub {
        RoutineSub::Start => config::find_routine(&config.routines_start, rid),
        RoutineSub::Stop => config::find_routine(&config.routines_stop, rid),
        RoutineSub::Result => config::find_routine(&config.routines_result, rid),
    };
    match found {
        None => {
            state::store_negative(state, SID, Nrc::RequestOutOfRange);
        },
        Some(entry) => {
            if !config::session_allowed(state.session, entry.session_access) {
                state::store_negative(state, SID, Nrc::SubFunctionNotSupportedInActiveSession);
                return;
            }
            if !config::security_allowed(state.security, entry.security_level) {
                state::store_negative(state, SID, Nrc::SecurityAccessDenied);
                return;
            }
            let met: [u8; 1] = [0x00];
            let result = match entry.routine {
                Routine::Noop => slice_subrange(met.as_slice(), 0, 0),
                Routine::CheckPreconditions => met.as_slice(),
            };
            assert(result@ =~= result_of(entry.routine));
            respond(state, req, Ok(result));
        },
    }
}

/// The handler changes neither the request in flight nor the pending work,
/// and keeps the buffers within their limits.
pub proof fn lemma_keeps(s: UdsModel, c: ConfigModel, req: Seq<u8>, sub: RoutineSub)
    requires
        s.wf(),
    ensures
        handled(s, c, req, sub).wf(),
        handled(s, c, req, sub).request == s.request,
        handled(s, c, req, sub).state == s.state,
{
}

/// The response repeats what was asked of which routine in front of the result,
/// up to seven bytes in all; a reason instead of a result is the code of a
/// refusal.
pub proof fn law_result_follows_its_routine(s: UdsModel, req: Seq<u8>, result: Seq<u8>, nrc: Nrc)
    requires
        req.len() >= 4,
        result.len() <= 3,
    ensures
        answered(s, req, Ok(result)) == (UdsModel {
            response: seq![0x71u8, req[1], req[2], req[3]] + result,
            response_pending: true,
            ..s
        }),
        answered(s, req, Err(nrc)) == (UdsModel {
            response: seq![0x7Fu8, 0x31, nrc.byte()],
            response_pending: true,
            ..s
        }),
{
}

} // verus!
