//! What the services of the diagnostic server do, byte by byte.

use vstd::prelude::*;

use crate::bytes;
use crate::uds;
use crate::uds::config;
use crate::uds::config::ConfigModel;
use crate::uds::config::ServiceHandler;
use crate::uds::crypto;
use crate::uds::nrc::Nrc;
use crate::uds::pending;
use crate::uds::pending::PendingFn;
use crate::uds::pending::PendingJob;
use crate::uds::security;
use crate::uds::session;
use crate::uds::state::SecurityLevel;
use crate::uds::state::Session;
use crate::uds::state::SrvState;
use crate::uds::state::UdsModel;
use crate::uds::static_config;
use crate::uds::write_data;

verus! {

/// A configuration with the tables that the firmware runs with; the queue and
/// the key material are free.
pub open spec fn runs_standard(c: ConfigModel) -> bool {
    &&& c.services == static_config::standard().services
    &&& c.read_dids == static_config::standard().read_dids
    &&& c.write_dids == static_config::standard().write_dids
    &&& c.routines_start == static_config::standard().routines_start
    &&& c.routines_stop == static_config::standard().routines_stop
    &&& c.routines_result == static_config::standard().routines_result
    &&& c.p2_server_ms == static_config::standard().p2_server_ms
    &&& c.soft_reset == static_config::standard().soft_reset
    &&& !c.on_default_session_enter
    &&& !c.on_programming_session_enter
    &&& !c.on_extended_session_enter
}

/// `s` after `request` was answered with `response` and nothing else was done.
pub open spec fn told(s: UdsModel, request: Seq<u8>, now_ms: u32, response: Seq<u8>) -> UdsModel {
    UdsModel { request, request_tick_ms: now_ms, response, response_pending: true, ..s }
}

/// A request that is admitted goes to the handler of its service.
proof fn lemma_goes_to(
    s: UdsModel,
    c: ConfigModel,
    request: Seq<u8>,
    now_ms: u32,
    handler: ServiceHandler,
)
    requires
        runs_standard(c),
        !s.tx_disabled,
        request.len() > 0,
        static_config::expected_entry(0b111, request[0]) matches Some(entry) && entry.handler
            == handler && entry.session_access == 0b111 && entry.security_level == 0,
    ensures
        uds::dispatched(s, c, request, now_ms) == uds::served(
            uds::in_flight(s, request, now_ms),
            c,
            handler,
            request,
        ),
{
    lemma_entry(c, request[0]);
    let entry = static_config::expected_entry(0b111, request[0])->0;
    config::law_access_masks(0b111);
    assert(config::admits(entry.session_access, s.session));
    assert(uds::admitted(s, c, request) == Ok::<ServiceHandler, Nrc>(handler));
}

/// The entry of a service in the standard table.
proof fn lemma_entry(c: ConfigModel, sid: u8)
    requires
        runs_standard(c),
    ensures
        config::service_of(c.services, sid) == static_config::expected_entry(0b111, sid),
{
    static_config::law_services_are_found(0b111, sid);
    assert(c.services == static_config::services(0b111));
}

/// A request of a service that does not exist is refused with 0x11 and
/// changes nothing else.
pub proof fn law_unknown_services_are_refused(
    s: UdsModel,
    c: ConfigModel,
    request: Seq<u8>,
    now_ms: u32,
)
    requires
        runs_standard(c),
        !s.tx_disabled,
        request.len() > 0,
        request[0] != 0x10 && request[0] != 0x11 && request[0] != 0x14 && request[0] != 0x19,
        request[0] != 0x22 && request[0] != 0x27 && request[0] != 0x28 && request[0] != 0x2E,
        request[0] != 0x31 && request[0] != 0x34 && request[0] != 0x36 && request[0] != 0x37,
        request[0] != 0x3E,
    ensures
        uds::dispatched(s, c, request, now_ms) == (
            UdsModel { response: seq![0x7Fu8, request[0], 0x11], response_pending: true, ..s },
            c,
        ),
{
    lemma_entry(c, request[0]);
}

/// An empty request changes nothing.
pub proof fn law_empty_requests_are_ignored(s: UdsModel, c: ConfigModel, now_ms: u32)
    ensures
        uds::dispatched(s, c, Seq::<u8>::empty(), now_ms) == (s, c),
{
}

/// While transmission is off, whatever the request, the answer is 0x22 and
/// nothing else changes, unless it is `[0x28, 0x00, ..]`.
pub proof fn law_silenced_server_answers_0x22(
    s: UdsModel,
    c: ConfigModel,
    request: Seq<u8>,
    now_ms: u32,
)
    requires
        s.tx_disabled,
        request.len() > 0,
        request.len() < 2 || request[0] != 0x28 || request[1] != 0x00,
    ensures
        uds::dispatched(s, c, request, now_ms) == (
            UdsModel { response: seq![0x7Fu8, request[0], 0x22], response_pending: true, ..s },
            c,
        ),
{
}

/// 0x10: the three sessions are 0x01, 0x02 and 0x03. The default session can
/// always be entered, the others with security access only. Entering one takes
/// the security access and all seeds back.
pub proof fn law_session_control(s: UdsModel, c: ConfigModel, request: Seq<u8>, now_ms: u32)
    requires
        runs_standard(c),
        !s.tx_disabled,
        request.len() > 0,
        request[0] == 0x10,
    ensures
        uds::dispatched(s, c, request, now_ms).1 == c,
        uds::dispatched(s, c, request, now_ms).0 == if request.len() != 2 {
            told(s, request, now_ms, seq![0x7Fu8, 0x10, 0x13])
        } else if request[1] == 0 || request[1] > 3 {
            told(s, request, now_ms, seq![0x7Fu8, 0x10, 0x12])
        } else if request[1] != 1 && s.security is Locked {
            told(s, request, now_ms, seq![0x7Fu8, 0x10, 0x33])
        } else {
            UdsModel {
                session: if request[1] == 1 {
                    Session::Default
                } else if request[1] == 2 {
                    Session::Programming
                } else {
                    Session::Extended
                },
                security: SecurityLevel::Locked,
                seed_sent: seq![false, false, false],
                ..told(s, request, now_ms, seq![0x50u8, request[1]])
            }
        },
{
    lemma_goes_to(s, c, request, now_ms, ServiceHandler::Session);
    let flying = uds::in_flight(s, request, now_ms);
    assert(uds::dispatched(s, c, request, now_ms).0 == session::handled(flying, c, request));
}

/// 0x11: a hard reset (0x01) and a soft one (0x03) are accepted in every
/// session and are due afterwards; other kinds are not known.
pub proof fn law_reset(s: UdsModel, c: ConfigModel, request: Seq<u8>, now_ms: u32)
    requires
        runs_standard(c),
        !s.tx_disabled,
        request.len() > 0,
        request[0] == 0x11,
    ensures
        uds::dispatched(s, c, request, now_ms).1 == c,
        uds::dispatched(s, c, request, now_ms).0 == if request.len() != 2 {
            told(s, request, now_ms, seq![0x7Fu8, 0x11, 0x13])
        } else if request[1] == 1 || request[1] == 3 {
            UdsModel {
                reset_requested: true,
                reset_subfunc: request[1],
                ..told(s, request, now_ms, seq![0x51u8, request[1]])
            }
        } else {
            told(s, request, now_ms, seq![0x7Fu8, 0x11, 0x12])
        },
{
    lemma_goes_to(s, c, request, now_ms, ServiceHandler::EcuReset);
}

/// 0x14 and 0x19: there are no trouble codes; clearing succeeds, and reading
/// by status mask finds none.
pub proof fn law_trouble_codes(s: UdsModel, c: ConfigModel, request: Seq<u8>, now_ms: u32)
    requires
        runs_standard(c),
        !s.tx_disabled,
        request.len() > 0,
        request[0] == 0x14 || request[0] == 0x19,
    ensures
        uds::dispatched(s, c, request, now_ms) == (
            told(
                s,
                request,
                now_ms,
                if request[0] == 0x14 {
                    if request.len() == 4 {
                        seq![0x54u8]
                    } else {
                        seq![0x7Fu8, 0x14, 0x13]
                    }
                } else if request.len() < 3 {
                    seq![0x7Fu8, 0x19, 0x13]
                } else if request[1] == 2 {
                    seq![0x59u8, 0x02, 0x00, 0x00]
                } else {
                    seq![0x7Fu8, 0x19, 0x12]
                },
            ),
            c,
        ),
{
    if request[0] == 0x14 {
        lemma_goes_to(s, c, request, now_ms, ServiceHandler::ClearDtc);
    } else {
        lemma_goes_to(s, c, request, now_ms, ServiceHandler::ReadDtc);
    }
}

/// 0x22: identifier 0xF186 reads as the number of the active session, in every
/// session and without security access; no other identifier can be read.
pub proof fn law_read_data(s: UdsModel, c: ConfigModel, request: Seq<u8>, now_ms: u32)
    requires
        runs_standard(c),
        !s.tx_disabled,
        request.len() > 0,
        request[0] == 0x22,
    ensures
        uds::dispatched(s, c, request, now_ms) == (
            told(
                s,
                request,
                now_ms,
                if request.len() != 3 {
                    seq![0x7Fu8, 0x22, 0x13]
                } else if request[1] != 0x86 || request[2] != 0xF1 {
                    seq![0x7Fu8, 0x22, 0x31]
                } else {
                    seq![
                        0x62u8,
                        0x86,
                        0xF1,
                        match s.session {
                            Session::Default => 0x01u8,
                            Session::Programming => 0x02,
                            Session::Extended => 0x03,
                        },
                    ]
                },
            ),
            c,
        ),
{
    lemma_goes_to(s, c, request, now_ms, ServiceHandler::ReadDataById);
    if request.len() == 3 {
        lemma_only_read_did(c, bytes::le_u16(request[1], request[2]));
        let flying = uds::in_flight(s, request, now_ms);
        let after = uds::dispatched(s, c, request, now_ms).0;
        assert(after == uds::read_data::handled(flying, c, request));
        assert((bytes::le_u16(request[1], request[2]) == 0xF186) == (request[1] == 0x86
            && request[2] == 0xF1));
        if request[1] == 0x86 && request[2] == 0xF1 {
            assert(after.response =~= seq![0x62u8, 0x86, 0xF1, s.session.byte()]);
        }
    }
}

proof fn lemma_only_read_did(c: ConfigModel, did: u16)
    requires
        runs_standard(c),
    ensures
        config::read_did_of(c.read_dids, did) == if did == 0xF186 {
            Some(c.read_dids[0])
        } else {
            None
        },
        c.read_dids[0].session_access == 0b111,
        c.read_dids[0].security_level == 0,
{
    assert(c.read_dids.skip(1).len() == 0);
    reveal_with_fuel(config::read_did_of, 2);
}

/// 0x28: controls 0x00 to 0x03 switch transmission off by bit 0 and reception
/// by bit 1; there are no others.
pub proof fn law_communication_control(s: UdsModel, c: ConfigModel, request: Seq<u8>, now_ms: u32)
    requires
        runs_standard(c),
        !s.tx_disabled || (request.len() >= 2 && request[1] == 0x00),
        request.len() > 0,
        request[0] == 0x28,
    ensures
        uds::dispatched(s, c, request, now_ms).1 == c,
        uds::dispatched(s, c, request, now_ms).0 == if request.len() != 3 {
            told(s, request, now_ms, seq![0x7Fu8, 0x28, 0x13])
        } else if request[1] > 3 {
            told(s, request, now_ms, seq![0x7Fu8, 0x28, 0x12])
        } else {
            UdsModel {
                tx_disabled: request[1] == 1 || request[1] == 3,
                rx_disabled: request[1] == 2 || request[1] == 3,
                ..told(s, request, now_ms, seq![0x68u8, request[1]])
            }
        },
{
    lemma_entry(c, request[0]);
    assert(uds::admitted(s, c, request) == Ok::<ServiceHandler, Nrc>(ServiceHandler::CommControl));
    let flying = uds::in_flight(s, request, now_ms);
    assert(uds::dispatched(s, c, request, now_ms).0 == uds::comm_control::handled(flying, request));
}

/// 0x3E: 0x00 is answered, 0x80 is heeded without an answer.
pub proof fn law_tester_present(s: UdsModel, c: ConfigModel, request: Seq<u8>, now_ms: u32)
    requires
        runs_standard(c),
        !s.tx_disabled,
        request.len() > 0,
        request[0] == 0x3E,
    ensures
        uds::dispatched(s, c, request, now_ms) == (
            told(
                s,
                request,
                now_ms,
                if request.len() != 2 {
                    seq![0x7Fu8, 0x3E, 0x13]
                } else if request[1] == 0x00 {
                    seq![0x7Eu8, 0x00]
                } else if request[1] == 0x80 {
                    Seq::<u8>::empty()
                } else {
                    seq![0x7Fu8, 0x3E, 0x12]
                },
            ),
            c,
        ),
{
    lemma_goes_to(s, c, request, now_ms, ServiceHandler::TesterPresent);
}

/// 0x31: routine 0xFF00 can be started (0x01) and stopped (0x02) in the
/// default and the programming session with security access, and gives no
/// result; routine 0xF001 can be asked for its result (0x03), which is 0x00, in
/// every session. Nothing else can be asked of a routine.
pub proof fn law_routine_control(s: UdsModel, c: ConfigModel, request: Seq<u8>, now_ms: u32)
    requires
        runs_standard(c),
        !s.tx_disabled,
        request.len() > 0,
        request[0] == 0x31,
    ensures
        uds::dispatched(s, c, request, now_ms) == (
            told(
                s,
                request,
                now_ms,
                if request.len() < 4 {
                    seq![0x7Fu8, 0x31, 0x13]
                } else if request[1] == 0x03 {
                    if request[2] == 0xF0 && request[3] == 0x01 {
                        seq![0x71u8, 0x03, 0xF0, 0x01, 0x00]
                    } else {
                        seq![0x7Fu8, 0x31, 0x31]
                    }
                } else if request[2] != 0xFF || request[3] != 0x00 {
                    seq![0x7Fu8, 0x31, 0x31]
                } else if s.session is Extended {
                    seq![0x7Fu8, 0x31, 0x7E]
                } else if s.security is Locked {
                    seq![0x7Fu8, 0x31, 0x33]
                } else {
                    seq![0x71u8, request[1], 0xFF, 0x00]
                },
            ),
            c,
        ),
{
    lemma_goes_to(s, c, request, now_ms, ServiceHandler::RoutineStart);
    let flying = uds::in_flight(s, request, now_ms);
    let sub = uds::routine::asked(request);
    let after = uds::dispatched(s, c, request, now_ms).0;
    assert(after == uds::routine::handled(flying, c, request, sub));
    if request.len() >= 4 {
        let rid = (0x100 * request[2] + request[3]) as u16;
        lemma_only_routines(c, rid);
        assert((rid == 0xFF00) == (request[2] == 0xFF && request[3] == 0x00));
        assert((rid == 0xF001) == (request[2] == 0xF0 && request[3] == 0x01));
        let head = seq![0x71u8, request[1], request[2], request[3]];
        assert(head + Seq::<u8>::empty() =~= head);
        assert(head + seq![0x00u8] =~= seq![0x71u8, request[1], request[2], request[3], 0x00]);
    }
}

proof fn lemma_only_routines(c: ConfigModel, rid: u16)
    requires
        runs_standard(c),
    ensures
        config::routine_of(c.routines_start, rid) == if rid == 0xFF00 {
            Some(static_config::dependency_check())
        } else {
            None
        },
        config::routine_of(c.routines_stop, rid) == if rid == 0xFF00 {
            Some(static_config::dependency_check())
        } else {
            None
        },
        config::routine_of(c.routines_result, rid) == if rid == 0xF001 {
            Some(static_config::precondition_check())
        } else {
            None
        },
{
    assert(c.routines_start.skip(1).len() == 0);
    assert(c.routines_stop.skip(1).len() == 0);
    assert(c.routines_result.skip(1).len() == 0);
    reveal_with_fuel(config::routine_of, 2);
}

/// A 16-byte block with a byte other than 0.
pub open spec fn has_content(material: Seq<u8>, block: int) -> bool {
    exists|i: int| 16 * block <= i < 16 * block + 16 && #[trigger] material[i] != 0
}

/// 0x2E: key material is written to identifier 0xF180 in the default or the
/// programming session, at security level 2 or above. It is accepted exactly
/// if it has 48 bytes and each of its three blocks has a byte other than 0; it
/// is then in force and due to be saved. A refused write changes nothing.
#[verifier::rlimit(30)]
pub proof fn law_key_material_is_written(
    s: UdsModel,
    c: ConfigModel,
    request: Seq<u8>,
    now_ms: u32,
)
    requires
        runs_standard(c),
        !s.tx_disabled,
        request.len() > 0,
        request[0] == 0x2E,
    ensures
        ({
            let material = request.skip(3);
            let after = uds::dispatched(s, c, request, now_ms);
            let refused = |code: u8|
                after == (told(s, request, now_ms, seq![0x7Fu8, 0x2E, code]), c);
            if request.len() < 3 {
                refused(0x13)
            } else if request[1] != 0x80 || request[2] != 0xF1 {
                refused(0x31)
            } else if s.session is Extended {
                refused(0x7F)
            } else if s.security is Locked || s.security is Sal1 {
                refused(0x33)
            } else if request.len() != 51 {
                refused(0x13)
            } else if !(has_content(material, 0) && has_content(material, 1) && has_content(
                material,
                2,
            )) {
                refused(0x31)
            } else {
                &&& after.0 == told(s, request, now_ms, seq![0x6Eu8, 0x80, 0xF1])
                &&& after.1 == (ConfigModel {
                    key_masks: material,
                    key_material_changed: true,
                    ..c
                })
            }
        }),
{
    lemma_goes_to(s, c, request, now_ms, ServiceHandler::WriteDataById);
    let flying = uds::in_flight(s, request, now_ms);
    assert(uds::dispatched(s, c, request, now_ms) == write_data::handled(flying, c, request));
    if request.len() >= 3 {
        let did = bytes::le_u16(request[1], request[2]);
        lemma_only_write_did(c, did);
        assert((did == 0xF180) == (request[1] == 0x80 && request[2] == 0xF1));
        let material = request.skip(3);
        if material.len() == 48 {
            lemma_blocks(material);
        }
    }
}

proof fn lemma_blocks(material: Seq<u8>)
    requires
        material.len() == 48,
    ensures
        write_data::all_zero(material.subrange(0, 16)) == !has_content(material, 0),
        write_data::all_zero(material.subrange(16, 32)) == !has_content(material, 1),
        write_data::all_zero(material.subrange(32, 48)) == !has_content(material, 2),
{
    lemma_block(material, 0);
    lemma_block(material, 1);
    lemma_block(material, 2);
}

proof fn lemma_block(material: Seq<u8>, k: int)
    requires
        material.len() == 48,
        0 <= k < 3,
    ensures
        write_data::all_zero(material.subrange(16 * k, 16 * k + 16)) == !has_content(material, k),
{
    let block = material.subrange(16 * k, 16 * k + 16);
    if has_content(material, k) {
        let i = choose|i: int| 16 * k <= i < 16 * k + 16 && #[trigger] material[i] != 0;
        assert(block[i - 16 * k] == material[i]);
    } else {
        assert forall|i: int| 0 <= i < block.len() implies #[trigger] block[i] == 0 by {
            assert(material[16 * k + i] == 0);
        }
    }
}

proof fn lemma_only_write_did(c: ConfigModel, did: u16)
    requires
        runs_standard(c),
    ensures
        config::write_did_of(c.write_dids, did) == if did == 0xF180 {
            Some(c.write_dids[0])
        } else {
            None
        },
{
    assert(c.write_dids.skip(1).len() == 0);
    reveal_with_fuel(config::write_did_of, 2);
}

/// The number of a security level.
pub open spec fn level(security: SecurityLevel) -> int {
    match security {
        SecurityLevel::Locked => 0,
        SecurityLevel::Sal1 => 1,
        SecurityLevel::Sal2 => 2,
        SecurityLevel::Sal3 => 3,
    }
}

/// The sessions in which a security level can be asked for.
pub open spec fn offered(sal: int, session: Session) -> bool {
    match session {
        Session::Default => sal == 1,
        Session::Programming => sal == 1 || sal == 2,
        Session::Extended => sal == 2 || sal == 3,
    }
}

/// The number in the first four bytes of a level's block of key material, most
/// significant byte first.
pub open spec fn mask_in(material: Seq<u8>, sal: int) -> int {
    let at = 16 * (sal - 1);
    0x100_0000 * material[at] + 0x1_0000 * material[at + 1] + 0x100 * material[at + 2]
        + material[at + 3]
}

/// 0x27: odd sub-functions ask for the seed of a level and even ones answer it
/// with a key, four bytes, least significant first. The seed is 0xA5A5A5A5, or 0
/// where the level is reached already. The key that the level's mask gives for
/// the seed unlocks, any other does not; either way the seed is used up.
#[verifier::rlimit(30)]
pub proof fn law_security_access(s: UdsModel, c: ConfigModel, request: Seq<u8>, now_ms: u32)
    requires
        runs_standard(c),
        s.wf(),
        c.key_masks.len() == 48,
        !s.tx_disabled,
        request.len() > 0,
        request[0] == 0x27,
    ensures
        uds::dispatched(s, c, request, now_ms).1 == c,
        ({
            let after = uds::dispatched(s, c, request, now_ms).0;
            let f = request[1];
            let sal = (f + 1) / 2;
            let i = sal - 1;
            let key = request[2] + 0x100 * request[3] + 0x1_0000 * request[4] + 0x100_0000
                * request[5];
            let expected = crypto::key_for(s.current_seed[i], mask_in(c.key_masks, sal) as u32);
            let used = UdsModel { seed_sent: s.seed_sent.update(i, false), ..s };
            after == if request.len() < 2 {
                told(s, request, now_ms, seq![0x7Fu8, 0x27, 0x13])
            } else if f == 0 || f > 6 {
                told(s, request, now_ms, seq![0x7Fu8, 0x27, 0x12])
            } else if !offered(sal, s.session) {
                told(s, request, now_ms, seq![0x7Fu8, 0x27, 0x7E])
            } else if f % 2 == 1 {
                if level(s.security) >= sal {
                    told(s, request, now_ms, seq![0x67u8, f, 0x00, 0x00, 0x00, 0x00])
                } else {
                    UdsModel {
                        seed_sent: s.seed_sent.update(i, true),
                        current_seed: s.current_seed.update(i, 0xA5A5_A5A5),
                        ..told(s, request, now_ms, seq![0x67u8, f, 0xA5, 0xA5, 0xA5, 0xA5])
                    }
                }
            } else if !s.seed_sent[i] {
                told(s, request, now_ms, seq![0x7Fu8, 0x27, 0x24])
            } else if request.len() != 6 {
                told(s, request, now_ms, seq![0x7Fu8, 0x27, 0x13])
            } else if key != expected {
                told(used, request, now_ms, seq![0x7Fu8, 0x27, 0x35])
            } else {
                UdsModel {
                    security: if sal == 1 {
                        SecurityLevel::Sal1
                    } else if sal == 2 {
                        SecurityLevel::Sal2
                    } else {
                        SecurityLevel::Sal3
                    },
                    ..told(used, request, now_ms, seq![0x67u8, f])
                }
            }
        }),
{
    lemma_goes_to(s, c, request, now_ms, ServiceHandler::SecurityAccess);
    let flying = uds::in_flight(s, request, now_ms);
    let after = uds::dispatched(s, c, request, now_ms).0;
    assert(after == security::handled(flying, c, request));
    let f = request[1];
    let sal = (f + 1) / 2;
    if request.len() >= 2 && 1 <= f <= 6 {
        assert(security::meaning(f) == Some((sal as u8, f % 2 == 1)));
        assert(security::reachable(sal as u8, s.session) == offered(sal, s.session));
        assert(bytes::u32_be(0) =~= seq![0u8, 0, 0, 0]);
        assert(bytes::u32_be(0xA5A5_A5A5) =~= seq![0xA5u8, 0xA5, 0xA5, 0xA5]);
        assert(seq![0x67u8, f] + seq![0u8, 0, 0, 0] =~= seq![0x67u8, f, 0, 0, 0, 0]);
        assert(seq![0x67u8, f] + seq![0xA5u8, 0xA5, 0xA5, 0xA5] =~= seq![
            0x67u8,
            f,
            0xA5,
            0xA5,
            0xA5,
            0xA5,
        ]);
        let block = c.key_masks.skip(16 * (sal - 1));
        assert(block[0] == c.key_masks[16 * (sal - 1)]);
        assert(block[1] == c.key_masks[16 * (sal - 1) + 1]);
        assert(block[2] == c.key_masks[16 * (sal - 1) + 2]);
        assert(block[3] == c.key_masks[16 * (sal - 1) + 3]);
        assert(c.level_mask(sal as int) == mask_in(c.key_masks, sal as int));
        if request.len() == 6 {
            let sent = request.skip(2);
            assert(sent[0] == request[2] && sent[1] == request[3]);
            assert(sent[2] == request[4] && sent[3] == request[5]);
        }
    }
}

/// A request of an update service that has its shape: six bytes with the format
/// 0 for an announcement, four for a block, one for the end.
pub open spec fn has_update_shape(request: Seq<u8>) -> bool {
    ||| request.len() == 6 && request[0] == 0x34 && request[1] == 0x00
    ||| request.len() == 4 && request[0] == 0x36
    ||| request.len() == 1 && request[0] == 0x37
}

/// 0x34, 0x36 and 0x37 in the programming session with security access: every
/// request that has its shape, whatever its other bytes are, goes into the
/// first free slot of the queue and leaves the server pending; it is refused
/// with 0x22 exactly when all slots are taken. Requests without the shape are
/// refused and not queued.
pub proof fn law_update_requests_are_queued(
    s: UdsModel,
    c: ConfigModel,
    request: Seq<u8>,
    now_ms: u32,
    slot: int,
)
    requires
        runs_standard(c),
        !s.tx_disabled,
        s.session is Programming,
        !(s.security is Locked),
        c.queue.len() == 4,
        request.len() > 0,
        request[0] == 0x34 || request[0] == 0x36 || request[0] == 0x37,
        0 <= slot <= 4,
        slot < 4 ==> c.queue[slot] is None,
        forall|i: int| 0 <= i < slot ==> #[trigger] c.queue[i] is Some,
    ensures
        uds::dispatched(s, c, request, now_ms) == if !has_update_shape(request) {
            (
                told(
                    s,
                    request,
                    now_ms,
                    seq![
                        0x7Fu8,
                        request[0],
                        if request[0] == 0x34 {
                            0x31u8
                        } else {
                            0x13
                        },
                    ],
                ),
                c,
            )
        } else if slot == 4 {
            (told(s, request, now_ms, seq![0x7Fu8, request[0], 0x22]), c)
        } else {
            (
                UdsModel { request, request_tick_ms: now_ms, state: SrvState::Pending, ..s },
                ConfigModel {
                    queue: c.queue.update(
                        slot,
                        Some(
                            PendingJob {
                                func: if request[0] == 0x34 {
                                    PendingFn::Erase
                                } else if request[0] == 0x36 {
                                    PendingFn::Transfer
                                } else {
                                    PendingFn::Exit
                                },
                            },
                        ),
                    ),
                    ..c
                },
            )
        },
{
    lemma_entry(c, request[0]);
    lemma_first_free(c.queue, 0, slot);
    assert(uds::admitted(s, c, request) is Ok);
}

proof fn lemma_first_free(queue: Seq<Option<PendingJob>>, from: int, slot: int)
    requires
        0 <= from <= slot <= queue.len(),
        slot < queue.len() ==> queue[slot] is None,
        forall|i: int| from <= i < slot ==> #[trigger] queue[i] is Some,
    ensures
        pending::free_slot(queue, from) == slot,
    decreases slot - from,
{
    if from < slot {
        lemma_first_free(queue, from + 1, slot);
    }
}

/// Outside the programming session an update request is refused with 0x7F, in
/// it without security access with 0x33, and nothing is queued.
pub proof fn law_update_needs_session_and_key(
    s: UdsModel,
    c: ConfigModel,
    request: Seq<u8>,
    now_ms: u32,
)
    requires
        runs_standard(c),
        !s.tx_disabled,
        request.len() > 0,
        request[0] == 0x34 || request[0] == 0x36 || request[0] == 0x37,
        !(s.session is Programming) || s.security is Locked,
    ensures
        uds::dispatched(s, c, request, now_ms) == (
            UdsModel {
                response: seq![
                    0x7Fu8,
                    request[0],
                    if s.session is Programming {
                        0x33u8
                    } else {
                        0x7F
                    },
                ],
                response_pending: true,
                ..s
            },
            c,
        ),
{
    lemma_entry(c, request[0]);
}

/// While queued work goes on, a client that has waited for 50 ms gets
/// `[0x7F, sid, 0x78]`, and the wait counts anew; before that, nothing changes.
pub proof fn law_client_is_told_to_wait(s: UdsModel, c: ConfigModel, now_ms: u32)
    requires
        runs_standard(c),
        s.state is Pending,
        s.request.len() > 0,
        c.queue.len() == 4,
    ensures
        ({
            let none = seq![false, false, false, false];
            pending::state_ticked(s, c, none, now_ms) == if now_ms >= s.request_tick_ms + 50 {
                told(s, s.request, now_ms, seq![0x7Fu8, s.request[0], 0x78])
            } else {
                s
            }
        }),
{
    let none = seq![false, false, false, false];
    assert(!pending::any_completed(c.queue, none));
}

/// An application that asked to be told of a session is told when it is entered,
/// and of no other.
pub proof fn law_entered_session_is_announced(s: UdsModel, c: ConfigModel, subfunc: u8)
    requires
        1 <= subfunc <= 3,
        subfunc == 1 || !(s.security is Locked),
    ensures
        session::handled(s, c, seq![0x10u8, subfunc]).session_entered == if subfunc == 1
            && c.on_default_session_enter {
            Some(Session::Default)
        } else if subfunc == 2 && c.on_programming_session_enter {
            Some(Session::Programming)
        } else if subfunc == 3 && c.on_extended_session_enter {
            Some(Session::Extended)
        } else {
            s.session_entered
        },
{
}

/// What a server starts with: the default session, locked, idle, with nothing
/// sent, nothing due and nothing switched off.
pub proof fn law_start_of_the_server()
    ensures
        UdsModel::initial() == (UdsModel {
            session: Session::Default,
            security: SecurityLevel::Locked,
            seed_sent: seq![false, false, false],
            current_seed: seq![0u32, 0, 0],
            state: SrvState::Idle,
            request: Seq::empty(),
            response: Seq::empty(),
            response_pending: false,
            request_tick_ms: 0,
            download_active: false,
            transfer_sn: 0,
            tx_disabled: false,
            rx_disabled: false,
            reset_requested: false,
            reset_subfunc: 0,
            session_entered: None,
        }),
        runs_standard(static_config::standard()),
        static_config::standard().queue == seq![None::<PendingJob>, None, None, None],
        static_config::standard().p2_server_ms == 50,
        static_config::standard().p2_star_ms == 5000,
        !static_config::standard().key_material_changed,
{
}

} // verus!
