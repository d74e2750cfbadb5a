//! 0x14 ClearDiagnosticInformation and 0x19 ReadDTCInformation. There are no
//! trouble codes, so clearing always succeeds and reading finds none.

use vstd::prelude::*;

use crate::uds::nrc::Nrc;
use crate::uds::state;
use crate::uds::state::UdsModel;
use crate::uds::state::UdsState;

verus! {

pub const SID_CLEAR: u8 = 0x14;

pub const SID_READ: u8 = 0x19;

/// The state after `[0x14, group (3 bytes)]`.
pub open spec fn cleared(s: UdsModel, req: Seq<u8>) -> UdsModel {
    if req.len() != 4 {
        s.refused(SID_CLEAR, Nrc::IncorrectMessageLengthOrInvalidFormat)
    } else {
        s.replied(seq![0x54u8])
    }
}

/// The state after `[0x19, 0x02, status_mask]`; other sub-functions do not
/// exist.
pub open spec fn reported(s: UdsModel, req: Seq<u8>) -> UdsModel {
    if req.len() < 3 {
        s.refused(SID_READ, Nrc::IncorrectMessageLengthOrInvalidFormat)
    } else if req[1] != 0x02 {
        s.refused(SID_READ, Nrc::SubFunctionNotSupported)
    } else {
        s.replied(seq![0x59u8, 0x02, 0x00, 0x00])
    }
}

pub fn handle_clear(state: &mut UdsState, req: &[u8])
    ensures
        final(state)@ == cleared(old(state)@, req@),
{
    if req.len() != 4 {
        state::store_negative(state, SID_CLEAR, Nrc::IncorrectMessageLengthOrInvalidFormat);
        return;
    }
    state::store_response(state, &[0x54]);
}

pub fn handle_read(state: &mut UdsState, req: &[u8])
    ensures
        final(state)@ == reported(old(state)@, req@),
{
    if req.len() < 3 {
        state::store_negative(state, SID_READ, Nrc::IncorrectMessageLengthOrInvalidFormat);
        return;
    }
    if req[1] != 0x02 {
        state::store_negative(state, SID_READ, Nrc::SubFunctionNotSupported);
        return;
    }
    state::store_response(state, &[0x59, 0x02, 0x00, 0x00]);
}

} // verus!
