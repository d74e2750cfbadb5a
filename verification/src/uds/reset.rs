//! 0x11 ECUReset.
//!
//! ```text
//! [0x11, kind] -> [0x51, kind]
//! ```
//!
//! Kind 0x01 is a hard reset, 0x03 a soft one. The reset itself is left to
//! the caller, once the response has gone out.

use vstd::prelude::*;

use crate::uds::config::UdsConfig;
use crate::uds::nrc::Nrc;
use crate::uds::state;
use crate::uds::state::UdsModel;
use crate::uds::state::UdsState;

verus! {

pub const SID: u8 = 0x11;

pub const HARD_RESET: u8 = 0x01;

pub const SOFT_RESET: u8 = 0x03;

/// The state after the request; `soft_reset` says whether soft resets are
/// supported.
pub open spec fn handled(s: UdsModel, soft_reset: bool, req: Seq<u8>) -> UdsModel {
    if req.len() != 2 {
        s.refused(SID, Nrc::IncorrectMessageLengthOrInvalidFormat)
    } else if req[1] == HARD_RESET || (soft_reset && req[1] == SOFT_RESET) {
        UdsModel { reset_requested: true, reset_subfunc: req[1], ..s }.replied(
            seq![0x51u8, req[1]],
        )
    } else {
        s.refused(SID, Nrc::SubFunctionNotSupported)
    }
}

pub fn handle(state: &mut UdsState, config: &UdsConfig, req: &[u8])
    ensures
        final(state)@ == handled(old(state)@, config@.soft_reset, req@),
{
    if req.len() != 2 {
        state::store_negative(state, SID, Nrc::IncorrectMessageLengthOrInvalidFormat);
        return;
    }
    let subfunc: u8 = req[1];
    if subfunc == HARD_RESET || (config.soft_reset && subfunc == SOFT_RESET) {
        state.reset_requested = true;
        state.reset_subfunc = subfunc;
        state::store_response(state, &[0x51, subfunc]);
    } else {
        state::store_negative(state, SID, Nrc::SubFunctionNotSupported);
    }
}

/// True once after a reset was accepted.
pub fn take_reset_request(state: &mut UdsState) -> (requested: bool)
    ensures
        requested == old(state)@.reset_requested,
        final(state)@ == (UdsModel { reset_requested: false, ..old(state)@ }),
{
    let requested = state.reset_requested;
    state.reset_requested = false;
    requested
}

/// The kind of the last accepted reset, once.
pub fn take_reset_subfunc(state: &mut UdsState) -> (kind: Option<u8>)
    ensures
        kind == if old(state)@.reset_subfunc == 0 {
            None
        } else {
            Some(old(state)@.reset_subfunc)
        },
        final(state)@ == (UdsModel { reset_subfunc: 0, ..old(state)@ }),
{
    let kind: u8 = state.reset_subfunc;
    state.reset_subfunc = 0;
    if kind == 0 {
        None
    } else {
        Some(kind)
    }
}

/// The handler changes neither the request in flight nor the pending work,
/// and keeps the buffers within their limits.
pub proof fn lemma_keeps(s: UdsModel, soft_reset: bool, req: Seq<u8>)
    requires
        s.wf(),
    ensures
        handled(s, soft_reset, req).wf(),
        handled(s, soft_reset, req).request == s.request,
        handled(s, soft_reset, req).state == s.state,
{
}

} // verus!
