//! 0x28 CommunicationControl.
//!
//! ```text
//! [0x28, control, network] -> [0x68, control]
//!
//! control  transmit  receive
//! 0x00     on        on
//! 0x01     off       on
//! 0x02     on        off
//! 0x03     off       off
//! ```
//!
//! While transmission is off the node sends nothing of its own accord and
//! the server refuses everything but control 0x00.

use vstd::prelude::*;

use crate::uds::nrc::Nrc;
use crate::uds::state;
use crate::uds::state::UdsModel;
use crate::uds::state::UdsState;

verus! {

pub const SID: u8 = 0x28;

/// Control that switches everything on.
pub const ENABLE: u8 = 0x00;

/// The state after the request. Bit 0 of the control switches transmission
/// off, bit 1 reception.
pub open spec fn handled(s: UdsModel, req: Seq<u8>) -> UdsModel {
    if req.len() != 3 {
        s.refused(SID, Nrc::IncorrectMessageLengthOrInvalidFormat)
    } else if req[1] > 0x03 {
        s.refused(SID, Nrc::SubFunctionNotSupported)
    } else {
        UdsModel { tx_disabled: req[1] % 2 == 1, rx_disabled: req[1] / 2 == 1, ..s }.replied(
            seq![0x68u8, req[1]],
        )
    }
}

pub fn handle(state: &mut UdsState, req: &[u8])
    ensures
        final(state)@ == handled(old(state)@, req@),
{
    if req.len() != 3 {
        state::store_negative(state, SID, Nrc::IncorrectMessageLengthOrInvalidFormat);
        return;
    }
    match req[1] {
        0x00 => {
            state.tx_disabled = false;
            state.rx_disabled = false;
            state::store_response(state, &[0x68, 0x00]);
        },
        0x01 => {
            state.tx_disabled = true;
            state.rx_disabled = false;
            state::store_response(state, &[0x68, 0x01]);
        },
        0x02 => {
            state.tx_disabled = false;
            state.rx_disabled = true;
            state::store_response(state, &[0x68, 0x02]);
        },
        0x03 => {
            state.tx_disabled = true;
            state.rx_disabled = true;
            state::store_response(state, &[0x68, 0x03]);
        },
        _ => {
            state::store_negative(state, SID, Nrc::SubFunctionNotSupported);
        },
    }
}

/// The handler changes neither the request in flight nor the pending work,
/// and keeps the buffers within their limits.
pub proof fn lemma_keeps(s: UdsModel, req: Seq<u8>)
    requires
        s.wf(),
    ensures
        handled(s, req).wf(),
        handled(s, req).request == s.request,
        handled(s, req).state == s.state,
{
}

} // verus!
