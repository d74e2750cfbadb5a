//! 0x3E TesterPresent.
//!
//! ```text
//! [0x3E, 0x00] -> [0x7E, 0x00]
//! [0x3E, 0x80] -> no response
//! ```

use vstd::prelude::*;

use crate::uds::nrc::Nrc;
use crate::uds::state;
use crate::uds::state::UdsModel;
use crate::uds::state::UdsState;

verus! {

pub const SID: u8 = 0x3E;

/// The state after the request. No response is an empty one.
pub open spec fn handled(s: UdsModel, req: Seq<u8>) -> UdsModel {
    if req.len() != 2 {
        s.refused(SID, Nrc::IncorrectMessageLengthOrInvalidFormat)
    } else if req[1] == 0x00 {
        s.replied(seq![0x7Eu8, 0x00])
    } else if req[1] == 0x80 {
        s.replied(Seq::empty())
    } else {
        s.refused(SID, Nrc::SubFunctionNotSupported)
    }
}

pub fn handle(state: &mut UdsState, req: &[u8])
    ensures
        final(state)@ == handled(old(state)@, req@),
{
    if req.len() != 2 {
        state::store_negative(state, SID, Nrc::IncorrectMessageLengthOrInvalidFormat);
        return;
    }
    let subfunc: u8 = req[1];
    if subfunc % 0x80 == 0x00 {
        if subfunc >= 0x80 {
            state::store_response(state, &[]);
        } else {
            state::store_response(state, &[0x7E, 0x00]);
        }
    } else {
        state::store_negative(state, SID, Nrc::SubFunctionNotSupported);
    }
}

} // verus!
