//! 0x27 SecurityAccess.
//!
//! ```text
//! [0x27, odd]            -> [0x67, odd, seed (4 bytes, most significant first)]
//! [0x27, even, key]      -> [0x67, even], key 4 bytes, least significant first
//!
//! sub-function  level  sessions
//! 0x01, 0x02    1      Default, Programming
//! 0x03, 0x04    2      Programming, Extended
//! 0x05, 0x06    3      Extended
//! ```

use vstd::prelude::*;

pub use crate::uds::crypto::generate_key;

use crate::bytes;
use crate::uds::config;
use crate::uds::config::ConfigModel;
use crate::uds::config::UdsConfig;
use crate::uds::crypto;
use crate::uds::nrc::Nrc;
use crate::uds::state;
use crate::uds::state::SecurityLevel;
use crate::uds::state::Session;
use crate::uds::state::UdsModel;
use crate::uds::state::UdsState;

verus! {

pub const SID: u8 = 0x27;

/// The seed of every level.
pub const SEED_ALL: u32 = 0xA5A5_A5A5;

/// Security level of a sub-function, and whether it asks for a seed.
pub open spec fn meaning(subfunc: u8) -> Option<(u8, bool)> {
    if 1 <= subfunc <= 6 {
        Some((((subfunc + 1) / 2) as u8, subfunc % 2 == 1))
    } else {
        None
    }
}

/// Whether a level can be reached in a session.
pub open spec fn reachable(sal: u8, session: Session) -> bool {
    match session {
        Session::Default => sal == 1,
        Session::Programming => sal == 1 || sal == 2,
        Session::Extended => sal == 2 || sal == 3,
    }
}

/// The state after a seed was asked for. A level that is already reached
/// gets the all-zero seed, which says that no key is needed.
pub open spec fn seed_requested(s: UdsModel, sal: u8, subfunc: u8) -> UdsModel {
    if s.security.rank() >= sal {
        s.replied(seq![0x67u8, subfunc] + bytes::u32_be(0))
    } else {
        UdsModel {
            current_seed: s.current_seed.update(sal - 1, SEED_ALL),
            seed_sent: s.seed_sent.update(sal - 1, true),
            ..s
        }.replied(
            seq![0x67u8, subfunc] + bytes::u32_be(SEED_ALL),
        )
    }
}

/// The state after a key was sent. The seed of its level is used up, whether
/// the key was right or wrong.
pub open spec fn key_sent(s: UdsModel, c: ConfigModel, sal: u8, subfunc: u8, req: Seq<u8>) -> UdsModel {
    if !s.seed_sent[sal - 1] {
        s.refused(SID, Nrc::RequestSequenceError)
    } else if req.len() != 6 {
        s.refused(SID, Nrc::IncorrectMessageLengthOrInvalidFormat)
    } else {
        let used = UdsModel { seed_sent: s.seed_sent.update(sal - 1, false), ..s };
        let expected = crypto::key_for(s.current_seed[sal - 1], c.level_mask(sal as int));
        if bytes::le_u32(req.skip(2)) != expected {
            used.refused(SID, Nrc::InvalidKey)
        } else {
            UdsModel {
                security: match sal {
                    1 => SecurityLevel::Sal1,
                    2 => SecurityLevel::Sal2,
                    _ => SecurityLevel::Sal3,
                },
                ..used
            }.replied(seq![0x67u8, subfunc])
        }
    }
}

/// The state after the request.
pub open spec fn handled(s: UdsModel, c: ConfigModel, req: Seq<u8>) -> UdsModel {
    if req.len() < 2 {
        s.refused(SID, Nrc::IncorrectMessageLengthOrInvalidFormat)
    } else {
        match meaning(req[1]) {
            None => s.refused(SID, Nrc::SubFunctionNotSupported),
            Some((sal, asks_seed)) => if !reachable(sal, s.session) {
                s.refused(SID, Nrc::SubFunctionNotSupportedInActiveSession)
            } else if asks_seed {
                seed_requested(s, sal, req[1])
            } else {
                key_sent(s, c, sal, req[1], req)
            },
        }
    }
}

/// Security level of a sub-function, and whether it asks for a seed.
pub fn parse_subfunc(subfunc: u8) -> (r: Option<(u8, bool)>)
    ensures
        r == meaning(subfunc),
{
    match subfunc {
        0x01 => Some((1, true)),
        0x02 => Some((1, false)),
        0x03 => Some((2, true)),
        0x04 => Some((2, false)),
        0x05 => Some((3, true)),
        0x06 => Some((3, false)),
        _ => None,
    }
}

/// Whether a level can be reached in a session.
pub fn sal_session_allowed(sal: u8, session: Session) -> (allowed: bool)
    ensures
        allowed == reachable(sal, session),
{
    match sal {
        1 => session == Session::Default || session == Session::Programming,
        2 => session == Session::Programming || session == Session::Extended,
        3 => session == Session::Extended,
        _ => false,
    }
}

fn handle_request_seed(state: &mut UdsState, sal: u8, subfunc: u8)
    requires
        1 <= sal <= 3,
    ensures
        final(state)@ == seed_requested(old(state)@, sal, subfunc),
{
    if state.security.as_u8() >= sal {
        let reply: [u8; 6] = [0x67, subfunc, 0x00, 0x00, 0x00, 0x00];
        assert(reply@ =~= seq![0x67u8, subfunc] + bytes::u32_be(0));
        state::store_response(state, reply.as_slice());
        return;
    }
    let i: usize = (sal - 1) as usize;
    state.current_seed[i] = SEED_ALL;
    state.seed_sent[i] = true;
    let seed = bytes::u32_to_be(SEED_ALL);
    let reply: [u8; 6] = [0x67, subfunc, seed[0], seed[1], seed[2], seed[3]];
    assert(reply@ =~= seq![0x67u8, subfunc] + bytes::u32_be(SEED_ALL));
    state::store_response(state, reply.as_slice());
}

fn handle_send_key(state: &mut UdsState, config: &UdsConfig, sal: u8, subfunc: u8, req: &[u8])
    requires
        1 <= sal <= 3,
    ensures
        final(state)@ == key_sent(old(state)@, config@, sal, subfunc, req@),
{
    let i: usize = (sal - 1) as usize;
    if !state.seed_sent[i] {
        state::store_negative(state, SID, Nrc::RequestSequenceError);
        return;
    }
    if req.len() != 6 {
        state::store_negative(state, SID, Nrc::IncorrectMessageLengthOrInvalidFormat);
        return;
    }
    state.seed_sent[i] = false;
    let key: u32 = bytes::u32_from_le([req[2], req[3], req[4], req[5]]);
    let expected: u32 = generate_key(state.current_seed[i], config::level_mask(config, sal));
    if key != expected {
        state::store_negative(state, SID, Nrc::InvalidKey);
        return;
    }
    state.security = SecurityLevel::from_u8(sal);
    state::store_response(state, &[0x67, subfunc]);
}

pub fn handle(state: &mut UdsState, config: &UdsConfig, req: &[u8])
    ensures
        final(state)@ == handled(old(state)@, config@, req@),
{
    if req.len() < 2 {
        state::store_negative(state, SID, Nrc::IncorrectMessageLengthOrInvalidFormat);
        return;
    }
    let subfunc: u8 = req[1];
    match parse_subfunc(subfunc) {
        None => {
            state::store_negative(state, SID, Nrc::SubFunctionNotSupported);
        },
        Some((sal, asks_seed)) => {
            if !sal_session_allowed(sal, state.session) {
                state::store_negative(state, SID, Nrc::SubFunctionNotSupportedInActiveSession);
                return;
            }
            if asks_seed {
                handle_request_seed(state, sal, subfunc);
            } else {
                handle_send_key(state, config, sal, subfunc, req);
            }
        },
    }
}

/// The security level only changes on a key that answers the seed sent last
/// for its level, and then to the level that the key is for.
pub proof fn law_level_changes_only_by_the_right_key(s: UdsModel, c: ConfigModel, req: Seq<u8>)
    requires
        handled(s, c, req).security != s.security,
    ensures
        req.len() == 6,
        meaning(req[1]) matches Some((sal, asks_seed)) && {
            &&& !asks_seed
            &&& reachable(sal, s.session)
            &&& s.seed_sent[sal - 1]
            &&& bytes::le_u32(req.skip(2)) == crypto::key_for(
                s.current_seed[sal - 1],
                c.level_mask(sal as int),
            )
            &&& handled(s, c, req).security.rank() == sal
        },
{
}

/// A seed can be answered once: after a key, right or wrong, a new seed of
/// its level must be asked for.
pub proof fn law_seed_is_used_once(s: UdsModel, c: ConfigModel, req: Seq<u8>, again: Seq<u8>)
    requires
        s.wf(),
        req.len() == 6,
        again.len() == 6,
        again[1] == req[1],
        meaning(req[1]) matches Some((sal, asks_seed)) && !asks_seed && reachable(sal, s.session)
            && s.seed_sent[sal - 1],
    ensures
        ({
            let after = handled(s, c, req);
            handled(after, c, again) == after.refused(SID, Nrc::RequestSequenceError)
        }),
{
}

/// A seed answers only its own level: asking for the seed of one level does
/// not let a key of another level in.
pub proof fn law_seed_answers_only_its_own_level(
    s: UdsModel,
    c: ConfigModel,
    asked: u8,
    tried: u8,
    req: Seq<u8>,
)
    requires
        s.wf(),
        1 <= asked <= 3,
        1 <= tried <= 3,
        asked != tried,
        reachable(tried, s.session),
        !s.seed_sent[tried - 1],
        req.len() >= 2,
        req[1] == 2 * tried,
    ensures
        ({
            let seeded = handled(s, c, seq![SID, (2 * asked - 1) as u8]);
            handled(seeded, c, req) == seeded.refused(SID, Nrc::RequestSequenceError)
        }),
{
    assert(meaning((2 * asked - 1) as u8) == Some((asked, true)));
    assert(meaning(req[1]) == Some((tried, false)));
}

/// The handshake succeeds: the key derived from the seed that was sent
/// unlocks the level.
pub proof fn law_handshake_unlocks(s: UdsModel, c: ConfigModel, sal: u8)
    requires
        s.wf(),
        1 <= sal <= 3,
        reachable(sal, s.session),
        s.security.rank() < sal,
    ensures
        ({
            let odd = (2 * sal - 1) as u8;
            let even = (2 * sal) as u8;
            let seeded = handled(s, c, seq![SID, odd]);
            let key = crypto::key_for(SEED_ALL, c.level_mask(sal as int));
            let unlocked = handled(seeded, c, seq![SID, even] + bytes::u32_le(key));
            &&& seeded.response == seq![0x67u8, odd] + bytes::u32_be(SEED_ALL)
            &&& unlocked.response == seq![0x67u8, even]
            &&& unlocked.security.rank() == sal
        }),
{
    let odd = (2 * sal - 1) as u8;
    let even = (2 * sal) as u8;
    let key = crypto::key_for(SEED_ALL, c.level_mask(sal as int));
    let answer = seq![SID, even] + bytes::u32_le(key);
    assert(answer.skip(2) =~= bytes::u32_le(key));
    bytes::lemma_u32_le_round_trip(key);
    assert(meaning(odd) == Some((sal, true)));
    assert(meaning(even) == Some((sal, false)));
}

/// The handler changes neither the request in flight nor the pending work,
/// and keeps the buffers within their limits.
pub proof fn lemma_keeps(s: UdsModel, c: ConfigModel, req: Seq<u8>)
    requires
        s.wf(),
    ensures
        handled(s, c, req).wf(),
        handled(s, c, req).request == s.request,
        handled(s, c, req).state == s.state,
{
}

} // verus!
