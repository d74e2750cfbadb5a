//! 0x22 ReadDataByIdentifier.
//!
//! ```text
//! [0x22, did_lo, did_hi] -> [0x62, did_lo, did_hi, data...]
//! ```

use vstd::prelude::*;

use crate::bytes;
use crate::uds::config;
use crate::uds::config::ConfigModel;
use crate::uds::config::DidSource;
use crate::uds::config::UdsConfig;
use crate::uds::nrc::Nrc;
use crate::uds::state;
use crate::uds::state::UdsModel;
use crate::uds::state::UdsState;

verus! {

pub const SID: u8 = 0x22;

/// Most data bytes that a response has room for.
pub const DATA_MAX: usize = 4;

/// The data that a source has.
pub open spec fn data_of(s: UdsModel, source: DidSource) -> Seq<u8> {
    match source {
        DidSource::ActiveSession => seq![s.session.byte()],
    }
}

/// The state after the data of the identifier was asked for.
pub open spec fn answered(s: UdsModel, req: Seq<u8>, data: Result<Seq<u8>, Nrc>) -> UdsModel {
    match data {
        Ok(data) => s.replied(seq![0x62u8, req[1], req[2]] + data),
        Err(nrc) => s.refused(SID, nrc),
    }
}

/// The state after the request.
pub open spec fn handled(s: UdsModel, c: ConfigModel, req: Seq<u8>) -> UdsModel {
    if req.len() != 3 {
        s.refused(SID, Nrc::IncorrectMessageLengthOrInvalidFormat)
    } else {
        match config::read_did_of(c.read_dids, bytes::le_u16(req[1], req[2])) {
            None => s.refused(SID, Nrc::RequestOutOfRange),
            Some(entry) => if !config::admits(entry.session_access, s.session) {
                s.refused(SID, Nrc::ServiceNotSupportedInActiveSession)
            } else if s.security.rank() < entry.security_level {
                s.refused(SID, Nrc::SecurityAccessDenied)
            } else {
                answered(s, req, Ok(data_of(s, entry.source)))
            },
        }
    }
}

/// Answers a request with the data of its identifier, or with the reason
/// why there is none.
pub fn respond(state: &mut UdsState, req: &[u8], data: Result<&[u8], Nrc>)
    requires
        req@.len() == 3,
        data matches Ok(d) ==> d@.len() <= DATA_MAX,
    ensures
        final(state)@ == answered(
            old(state)@,
            req@,
            match data {
                Ok(d) => Ok(d@),
                Err(nrc) => Err(nrc),
            },
        ),
{
    match data {
        Ok(d) => {
            let mut out: Vec<u8> = vec![0x62, req[1], req[2]];
            let ghost head = out@;
            let mut i: usize = 0;
            while i < d.len()
                invariant
                    i <= d@.len(),
                    out@ == head + d@.take(i as int),
                decreases d.len() - i,
            {
                out.push(d[i]);
                assert(d@.take(i + 1) =~= d@.take(i as int).push(d@[i as int]));
                i = i + 1;
            }
            assert(d@.take(i as int) =~= d@);
            assert(head =~= seq![0x62u8, req@[1], req@[2]]);
            state::store_response(state, out.as_slice());
        },
        Err(nrc) => {
            state::store_negative(state, SID, nrc);
        },
    }
}

pub fn handle(state: &mut UdsState, config: &UdsConfig, req: &[u8])
    ensures
        final(state)@ == handled(old(state)@, config@, req@),
{
    if req.len() != 3 {
        state::store_negative(state, SID, Nrc::IncorrectMessageLengthOrInvalidFormat);
        return;
    }
    let did: u16 = bytes::u16_from_le(req[1], req[2]);
    match config::find_read_did(&config.read_dids, did) {
        None => {
            state::store_negative(state, SID, Nrc::RequestOutOfRange);
        },
        Some(entry) => {
            if !config::session_allowed(state.session, entry.session_access) {
                state::store_negative(state, SID, Nrc::ServiceNotSupportedInActiveSession);
                return;
            }
            if !config::security_allowed(state.security, entry.security_level) {
                state::store_negative(state, SID, Nrc::SecurityAccessDenied);
                return;
            }
            match entry.source {
                DidSource::ActiveSession => {
                    let data: [u8; 1] = [state::load_response_session_byte(state)];
                    respond(state, req, Ok(data.as_slice()));
                },
            }
        },
    }
}

/// The handler changes neither the request in flight nor the pending work,
/// and keeps the buffers within their limits.
pub proof fn lemma_keeps(s: UdsModel, c: ConfigModel, req: Seq<u8>)
    requires
        s.wf(),
    ensures
        handled(s, c, req).wf(),
        handled(s, c, req).request == s.request,
        handled(s, c, req).state == s.state,
{
}

/// The response repeats the identifier in front of the data; a reason instead of
/// data is the code of a refusal.
pub proof fn law_data_follows_its_identifier(s: UdsModel, req: Seq<u8>, data: Seq<u8>, nrc: Nrc)
    requires
        req.len() == 3,
        data.len() <= 4,
    ensures
        answered(s, req, Ok(data)) == (UdsModel {
            response: seq![0x62u8, req[1], req[2]] + data,
            response_pending: true,
            ..s
        }),
        answered(s, req, Err(nrc)) == (UdsModel {
            response: seq![0x7Fu8, 0x22, nrc.byte()],
            response_pending: true,
            ..s
        }),
{
}

} // verus!
