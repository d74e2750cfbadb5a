use foc_rust::can::frame::{FdFrame, Frame, FrameId};
use foc_rust::can::{uds_config, uds_transport};
use foc_rust::drivers::can::uds_bridge::{DefaultUdsTransport, UdsTransport};
use foc_rust::drivers::flash::{FlashError, FlashOp, FlashOutcome};
use foc_rust::ota::{Ota, OtaState};
use foc_rust::uds::config::{
    self, security_allowed, session_allowed, session_bit, ServiceEntry, ServiceHandler,
};
use foc_rust::uds::nrc::Nrc;
use foc_rust::uds::pending::{
    self, push_pending, send_response_pending, take_response, DispatchResult, PendingFn, PendingJob,
};
use foc_rust::uds::state::{
    load_request, load_response, load_response_session_byte, store_negative, store_response,
    SecurityLevel, Session, SrvState, UdsState,
};
use foc_rust::uds::transport::{self, can_id};
use foc_rust::uds::{
    self, comm_control, download, dtc, read_data, reset, routine, security, session, static_config,
    tester_present, write_data, TickStep, UdsServer,
};

const KEY1: u32 = 0x497D_FE82;
const KEY2: u32 = 0x31A2_063F;
const KEY3: u32 = 0x70F3_5D4D;

fn server() -> UdsServer {
    UdsServer::new(static_config::uds_config())
}

fn ask(s: &mut UdsServer, request: &[u8]) -> Vec<u8> {
    assert_eq!(uds::dispatch(s, request, 0), DispatchResult::Ready);
    load_response(&s.state)
}

fn with_key(sub: u8, key: u32) -> Vec<u8> {
    let mut v = vec![0x27, sub];
    v.extend_from_slice(&key.to_le_bytes());
    v
}

fn unlock(s: &mut UdsServer, sal: u8) {
    let key = [KEY1, KEY2, KEY3][sal as usize - 1];
    let mut seed = vec![0x67, 2 * sal - 1];
    seed.extend_from_slice(&[0xA5, 0xA5, 0xA5, 0xA5]);
    assert_eq!(ask(s, &[0x27, 2 * sal - 1]), seed);
    assert_eq!(ask(s, &with_key(2 * sal, key)), vec![0x67, 2 * sal]);
    assert_eq!(s.state.security.as_u8(), sal);
}

fn programming(s: &mut UdsServer) {
    unlock(s, 1);
    assert_eq!(ask(s, &[0x10, 0x02]), vec![0x50, 0x02]);
    assert_eq!(s.state.security, SecurityLevel::Locked);
    unlock(s, 1);
}

#[test]
fn nrc_codes_and_names() {
    assert_eq!(Nrc::GeneralReject.code(), 0x10);
    assert_eq!(Nrc::ServiceNotSupported.code(), 0x11);
    assert_eq!(Nrc::SubFunctionNotSupported.code(), 0x12);
    assert_eq!(Nrc::IncorrectMessageLengthOrInvalidFormat.code(), 0x13);
    assert_eq!(Nrc::ResponseTooLong.code(), 0x14);
    assert_eq!(Nrc::BusyRepeatRequest.code(), 0x21);
    assert_eq!(Nrc::ConditionsNotCorrect.code(), 0x22);
    assert_eq!(Nrc::RequestSequenceError.code(), 0x24);
    assert_eq!(Nrc::NoResponseFromSubnetComponent.code(), 0x25);
    assert_eq!(Nrc::FailurePreventsExecutionOfRequestedAction.code(), 0x26);
    assert_eq!(Nrc::RequestOutOfRange.code(), 0x31);
    assert_eq!(Nrc::SecurityAccessDenied.code(), 0x33);
    assert_eq!(Nrc::AuthenticationRequired.code(), 0x34);
    assert_eq!(Nrc::InvalidKey.code(), 0x35);
    assert_eq!(Nrc::ExceededNumberOfAttempts.code(), 0x36);
    assert_eq!(Nrc::RequiredTimeDelayNotExpired.code(), 0x37);
    assert_eq!(Nrc::UploadDownloadNotAccepted.code(), 0x70);
    assert_eq!(Nrc::TransferDataSuspended.code(), 0x71);
    assert_eq!(Nrc::GeneralProgrammingFailure.code(), 0x72);
    assert_eq!(Nrc::WrongBlockSequenceNumber.code(), 0x73);
    assert_eq!(Nrc::IllegalByteCountInBlockTransfer.code(), 0x75);
    assert_eq!(Nrc::RequestCorrectlyReceivedResponsePending.code(), 0x78);
    assert_eq!(Nrc::SubFunctionNotSupportedInActiveSession.code(), 0x7E);
    assert_eq!(Nrc::ServiceNotSupportedInActiveSession.code(), 0x7F);
    assert_eq!(Nrc::InvalidKey.negative_response(0x27), [0x7F, 0x27, 0x35]);
    assert_eq!(Nrc::InvalidKey.name(), "invalidKey");
    assert_eq!(
        Nrc::RequestCorrectlyReceivedResponsePending.name(),
        "requestCorrectlyReceivedResponsePending"
    );
}

#[test]
fn session_and_level_numbers() {
    for s in [Session::Default, Session::Programming, Session::Extended] {
        assert_eq!(Session::from_u8(s.as_u8()), Some(s));
    }
    assert_eq!(Session::from_u8(0), None);
    assert_eq!(Session::from_u8(4), None);
    for v in 0..=3u8 {
        assert_eq!(SecurityLevel::from_u8(v).as_u8(), v);
        assert_eq!(SecurityLevel::from_u8_or_locked(v).as_u8(), v);
    }
    assert_eq!(SecurityLevel::from_u8(9), SecurityLevel::Sal3);
    assert_eq!(SecurityLevel::from_u8_or_locked(9), SecurityLevel::Locked);
}

#[test]
fn access_masks() {
    assert_eq!(session_bit(Session::Default), 1);
    assert_eq!(session_bit(Session::Programming), 2);
    assert_eq!(session_bit(Session::Extended), 4);
    assert!(session_allowed(Session::Extended, 0));
    assert!(session_allowed(Session::Programming, 0b010));
    assert!(!session_allowed(Session::Default, 0b010));
    assert!(!session_allowed(Session::Extended, 0b011));
    assert!(security_allowed(SecurityLevel::Sal2, 1));
    assert!(security_allowed(SecurityLevel::Locked, 0));
    assert!(!security_allowed(SecurityLevel::Sal1, 2));
}

#[test]
fn responses_are_cut_to_seven_bytes() {
    let mut s = UdsState::zeroed();
    assert_eq!(store_response(&mut s, &[1, 2, 3, 4, 5, 6, 7, 8]), 7);
    assert_eq!(load_response(&s), vec![1, 2, 3, 4, 5, 6, 7]);
    assert_eq!(take_response(&mut s), Some(7));
    assert_eq!(take_response(&mut s), None);
    assert_eq!(store_negative(&mut s, 0x22, Nrc::RequestOutOfRange), 3);
    assert_eq!(load_response(&s), vec![0x7F, 0x22, 0x31]);
    store_response(&mut s, &[]);
    assert_eq!(take_response(&mut s), None);
    assert_eq!(load_response_session_byte(&s), 1);
}

#[test]
fn service_entries() {
    let e = ServiceEntry::new(0x34, 0b010, 1, ServiceHandler::RequestDownload);
    assert_eq!((e.sid, e.session_access, e.security_level), (0x34, 0b010, 1));
    let c = static_config::uds_config();
    assert_eq!(config::find_service(&c.services, 0x34), Some(e));
    assert_eq!(config::find_service(&c.services, 0x35), None);
    assert_eq!(config::find_read_did(&c.read_dids, 0xF186).unwrap().did, 0xF186);
    assert!(config::find_read_did(&c.read_dids, 0xF187).is_none());
    assert_eq!(config::find_write_did(&c.write_dids, 0xF180).unwrap().security_level, 2);
    assert_eq!(config::find_routine(&c.routines_result, 0xF001).unwrap().rid, 0xF001);
}

#[test]
fn unknown_service_is_refused() {
    let mut s = server();
    assert_eq!(ask(&mut s, &[0x99, 1]), vec![0x7F, 0x99, 0x11]);
    assert_eq!(load_request(&s.state), Vec::<u8>::new());
}

#[test]
fn empty_request_is_ignored() {
    let mut s = server();
    assert_eq!(uds::dispatch(&mut s, &[], 5), DispatchResult::Ready);
    assert!(!uds::response_ready(&s));
}

#[test]
fn session_control() {
    let mut s = server();
    assert_eq!(ask(&mut s, &[0x10, 0x01]), vec![0x50, 0x01]);
    assert_eq!(ask(&mut s, &[0x10, 0x02]), vec![0x7F, 0x10, 0x33]);
    assert_eq!(ask(&mut s, &[0x10, 0x03]), vec![0x7F, 0x10, 0x33]);
    assert_eq!(ask(&mut s, &[0x10, 0x04]), vec![0x7F, 0x10, 0x12]);
    assert_eq!(ask(&mut s, &[0x10]), vec![0x7F, 0x10, 0x13]);
    unlock(&mut s, 1);
    assert_eq!(ask(&mut s, &[0x10, 0x03]), vec![0x50, 0x03]);
    assert_eq!(s.state.security, SecurityLevel::Locked);
    assert_eq!(ask(&mut s, &[0x22, 0x86, 0xF1]), vec![0x62, 0x86, 0xF1, 0x03]);
}

#[test]
fn session_hook() {
    let mut c = static_config::uds_config();
    c.on_default_session_enter = true;
    let mut st = UdsState::zeroed();
    session::handle(&mut st, &c, &[0x10, 0x01]);
    assert_eq!(session::take_session_entered(&mut st), Some(Session::Default));
    assert_eq!(session::take_session_entered(&mut st), None);
}

#[test]
fn ecu_reset() {
    let mut s = server();
    assert_eq!(ask(&mut s, &[0x11]), vec![0x7F, 0x11, 0x13]);
    assert_eq!(ask(&mut s, &[0x11, 0x02]), vec![0x7F, 0x11, 0x12]);
    assert!(!reset::take_reset_request(&mut s.state));
    assert_eq!(ask(&mut s, &[0x11, 0x03]), vec![0x51, 0x03]);
    assert!(reset::take_reset_request(&mut s.state));
    assert!(!reset::take_reset_request(&mut s.state));
    assert_eq!(reset::take_reset_subfunc(&mut s.state), Some(3));
    assert_eq!(reset::take_reset_subfunc(&mut s.state), None);
    assert_eq!(ask(&mut s, &[0x11, 0x01]), vec![0x51, 0x01]);
    assert_eq!(reset::take_reset_subfunc(&mut s.state), Some(1));
}

#[test]
fn basic_configuration_has_no_soft_reset() {
    let mut s = UdsServer::new(uds_config::uds_config());
    assert_eq!(ask(&mut s, &[0x11, 0x03]), vec![0x7F, 0x11, 0x12]);
    assert_eq!(ask(&mut s, &[0x11, 0x01]), vec![0x51, 0x01]);
    unlock(&mut s, 1);
    ask(&mut s, &[0x10, 0x03]);
    assert_eq!(ask(&mut s, &[0x11, 0x01]), vec![0x7F, 0x11, 0x7F]);
    assert_eq!(ask(&mut s, &[0x2E, 0x80, 0xF1]), vec![0x7F, 0x2E, 0x31]);
}

#[test]
fn trouble_codes() {
    let mut st = UdsState::zeroed();
    dtc::handle_clear(&mut st, &[0x14, 0xFF, 0xFF, 0xFF]);
    assert_eq!(load_response(&st), vec![0x54]);
    dtc::handle_clear(&mut st, &[0x14]);
    assert_eq!(load_response(&st), vec![0x7F, 0x14, 0x13]);
    dtc::handle_read(&mut st, &[0x19, 0x02, 0xFF]);
    assert_eq!(load_response(&st), vec![0x59, 0x02, 0, 0]);
    dtc::handle_read(&mut st, &[0x19, 0x01, 0xFF]);
    assert_eq!(load_response(&st), vec![0x7F, 0x19, 0x12]);
    dtc::handle_read(&mut st, &[0x19, 0x02]);
    assert_eq!(load_response(&st), vec![0x7F, 0x19, 0x13]);
}

#[test]
fn tester_presence() {
    let mut st = UdsState::zeroed();
    tester_present::handle(&mut st, &[0x3E, 0x00]);
    assert_eq!(load_response(&st), vec![0x7E, 0x00]);
    tester_present::handle(&mut st, &[0x3E, 0x80]);
    assert_eq!(load_response(&st), Vec::<u8>::new());
    tester_present::handle(&mut st, &[0x3E, 0x05]);
    assert_eq!(load_response(&st), vec![0x7F, 0x3E, 0x12]);
    tester_present::handle(&mut st, &[0x3E]);
    assert_eq!(load_response(&st), vec![0x7F, 0x3E, 0x13]);
}

#[test]
fn communication_control() {
    let mut st = UdsState::zeroed();
    for (sub, tx, rx) in [(3u8, true, true), (2, false, true), (1, true, false), (0, false, false)] {
        comm_control::handle(&mut st, &[0x28, sub, 1]);
        assert_eq!(load_response(&st), vec![0x68, sub]);
        assert_eq!((st.tx_disabled, st.rx_disabled), (tx, rx));
    }
    comm_control::handle(&mut st, &[0x28, 4, 1]);
    assert_eq!(load_response(&st), vec![0x7F, 0x28, 0x12]);
    comm_control::handle(&mut st, &[0x28, 0]);
    assert_eq!(load_response(&st), vec![0x7F, 0x28, 0x13]);
}

#[test]
fn silenced_server_only_takes_the_unlock() {
    let mut s = server();
    assert_eq!(ask(&mut s, &[0x28, 0x03, 0x01]), vec![0x68, 0x03]);
    assert!(uds::tx_disabled(&s));
    assert_eq!(ask(&mut s, &[0x3E, 0x00]), vec![0x7F, 0x3E, 0x22]);
    assert_eq!(ask(&mut s, &[0x28, 0x01, 0x01]), vec![0x7F, 0x28, 0x22]);
    assert_eq!(ask(&mut s, &[0x28, 0x00, 0x01]), vec![0x68, 0x00]);
    assert!(!uds::tx_disabled(&s));
    assert_eq!(ask(&mut s, &[0x3E, 0x00]), vec![0x7E, 0x00]);
}

#[test]
fn read_by_identifier() {
    let mut s = server();
    assert_eq!(ask(&mut s, &[0x22, 0x86, 0xF1]), vec![0x62, 0x86, 0xF1, 0x01]);
    assert_eq!(ask(&mut s, &[0x22, 0x87, 0xF1]), vec![0x7F, 0x22, 0x31]);
    assert_eq!(ask(&mut s, &[0x22, 0x86]), vec![0x7F, 0x22, 0x13]);
    read_data::respond(&mut s.state, &[0x22, 1, 2], Ok(&[9, 8, 7, 6]));
    assert_eq!(load_response(&s.state), vec![0x62, 1, 2, 9, 8, 7, 6]);
    read_data::respond(&mut s.state, &[0x22, 1, 2], Err(Nrc::GeneralReject));
    assert_eq!(load_response(&s.state), vec![0x7F, 0x22, 0x10]);
}

#[test]
fn read_gates() {
    let mut c = static_config::uds_config();
    c.read_dids[0].session_access = 0b010;
    let mut st = UdsState::zeroed();
    read_data::handle(&mut st, &c, &[0x22, 0x86, 0xF1]);
    assert_eq!(load_response(&st), vec![0x7F, 0x22, 0x7F]);
    c.read_dids[0].session_access = 0;
    c.read_dids[0].security_level = 1;
    read_data::handle(&mut st, &c, &[0x22, 0x86, 0xF1]);
    assert_eq!(load_response(&st), vec![0x7F, 0x22, 0x33]);
}

#[test]
fn key_material_is_rotated() {
    let mut s = server();
    let mut request = vec![0x2E, 0x80, 0xF1];
    request.extend((0..48).map(|i| i as u8 + 1));
    assert_eq!(ask(&mut s, &request), vec![0x7F, 0x2E, 0x33]);
    programming(&mut s);
    unlock(&mut s, 2);
    assert!(config::take_changed_key_material(&mut s.config).is_none());
    assert_eq!(ask(&mut s, &request), vec![0x6E, 0x80, 0xF1]);
    let keys = config::take_changed_key_material(&mut s.config).unwrap();
    assert_eq!(keys[0].0[0], 1);
    assert_eq!(keys[2].0[15], 48);
    assert!(config::take_changed_key_material(&mut s.config).is_none());
    assert_eq!(ask(&mut s, &request[..50]), vec![0x7F, 0x2E, 0x13]);
    for b in &mut request[19..35] {
        *b = 0;
    }
    assert_eq!(ask(&mut s, &request), vec![0x7F, 0x2E, 0x31]);
    assert_eq!(s.config.key_masks[0].0[0], 1);
    assert_eq!(ask(&mut s, &[0x2E, 0x81, 0xF1]), vec![0x7F, 0x2E, 0x31]);
    assert_eq!(ask(&mut s, &[0x2E, 0x80]), vec![0x7F, 0x2E, 0x13]);
}

#[test]
fn key_material_is_not_written_in_the_extended_session() {
    let mut s = server();
    unlock(&mut s, 1);
    ask(&mut s, &[0x10, 0x03]);
    unlock(&mut s, 2);
    let mut request = vec![0x2E, 0x80, 0xF1];
    request.extend([1u8; 48]);
    assert_eq!(ask(&mut s, &request), vec![0x7F, 0x2E, 0x7F]);
    assert_eq!(
        write_data::write_key_masks(&mut s.config, &[0; 48]),
        Err(Nrc::RequestOutOfRange)
    );
}

#[test]
fn routines() {
    let mut s = server();
    assert_eq!(ask(&mut s, &[0x31, 0x01, 0xFF, 0x00]), vec![0x7F, 0x31, 0x33]);
    assert_eq!(ask(&mut s, &[0x31, 0x03, 0xF0, 0x01]), vec![0x71, 0x03, 0xF0, 0x01, 0x00]);
    assert_eq!(ask(&mut s, &[0x31, 0x01, 0xF0, 0x01]), vec![0x7F, 0x31, 0x31]);
    assert_eq!(ask(&mut s, &[0x31, 0x01, 0xFF]), vec![0x7F, 0x31, 0x13]);
    unlock(&mut s, 1);
    assert_eq!(ask(&mut s, &[0x31, 0x01, 0xFF, 0x00]), vec![0x71, 0x01, 0xFF, 0x00]);
    assert_eq!(ask(&mut s, &[0x31, 0x02, 0xFF, 0x00]), vec![0x71, 0x02, 0xFF, 0x00]);
    assert_eq!(ask(&mut s, &[0x31, 0x03, 0xFF, 0x00]), vec![0x7F, 0x31, 0x31]);
    ask(&mut s, &[0x10, 0x03]);
    assert_eq!(ask(&mut s, &[0x31, 0x01, 0xFF, 0x00]), vec![0x7F, 0x31, 0x7E]);
    routine::respond(&mut s.state, &[0x31, 1, 2, 3], Ok(&[1, 2, 3, 4]));
    assert_eq!(load_response(&s.state), vec![0x71, 1, 2, 3, 1, 2, 3]);
    routine::respond(&mut s.state, &[0x31, 1, 2, 3], Err(Nrc::GeneralReject));
    assert_eq!(load_response(&s.state), vec![0x7F, 0x31, 0x10]);
    assert_eq!(routine::sub_of(&[0x31, 2]), routine::RoutineSub::Stop);
    assert_eq!(routine::sub_of(&[0x31]), routine::RoutineSub::Start);
}

#[test]
fn security_handshake() {
    let mut s = server();
    assert_eq!(ask(&mut s, &[0x27]), vec![0x7F, 0x27, 0x13]);
    assert_eq!(ask(&mut s, &[0x27, 0x07]), vec![0x7F, 0x27, 0x12]);
    assert_eq!(ask(&mut s, &[0x27, 0x03]), vec![0x7F, 0x27, 0x7E]);
    assert_eq!(ask(&mut s, &with_key(2, KEY1)), vec![0x7F, 0x27, 0x24]);
    ask(&mut s, &[0x27, 0x01]);
    assert_eq!(ask(&mut s, &[0x27, 0x02, 1]), vec![0x7F, 0x27, 0x13]);
    assert_eq!(ask(&mut s, &with_key(2, KEY1 + 1)), vec![0x7F, 0x27, 0x35]);
    assert_eq!(ask(&mut s, &with_key(2, KEY1)), vec![0x7F, 0x27, 0x24]);
    unlock(&mut s, 1);
    assert_eq!(ask(&mut s, &[0x27, 0x01]), vec![0x67, 0x01, 0, 0, 0, 0]);
}

#[test]
fn security_levels_of_the_extended_session() {
    let mut s = server();
    unlock(&mut s, 1);
    ask(&mut s, &[0x10, 0x03]);
    assert_eq!(ask(&mut s, &[0x27, 0x01]), vec![0x7F, 0x27, 0x7E]);
    unlock(&mut s, 2);
    unlock(&mut s, 3);
    assert_eq!(security::parse_subfunc(6), Some((3, false)));
    assert_eq!(security::parse_subfunc(0), None);
    assert!(!security::sal_session_allowed(4, Session::Extended));
}

#[test]
fn update_services_are_gated() {
    let mut s = server();
    assert_eq!(ask(&mut s, &[0x34, 0, 2, 0, 0, 0]), vec![0x7F, 0x34, 0x7F]);
    unlock(&mut s, 1);
    ask(&mut s, &[0x10, 0x02]);
    assert_eq!(ask(&mut s, &[0x36, 1, 2, 3]), vec![0x7F, 0x36, 0x33]);
    unlock(&mut s, 1);
    assert_eq!(ask(&mut s, &[0x34, 1, 2, 0, 0, 0]), vec![0x7F, 0x34, 0x31]);
    assert_eq!(ask(&mut s, &[0x36, 1, 2]), vec![0x7F, 0x36, 0x13]);
    assert_eq!(ask(&mut s, &[0x37, 1]), vec![0x7F, 0x37, 0x13]);
}

#[test]
fn update_through_the_queue() {
    let mut s = server();
    programming(&mut s);
    assert_eq!(uds::dispatch(&mut s, &[0x34, 0, 2, 0, 0, 0], 10), DispatchResult::Pending);
    assert_eq!(load_request(&s.state), vec![0x34, 0, 2, 0, 0, 0]);
    uds::take_response_pending(&mut s);
    let step = uds::tick(&mut s, 11);
    assert_eq!(step, TickStep::Flash(FlashOp::Erase { start: 0x0801_3000, end: 0x0801_F800 }));
    let step = uds::resume(&mut s, FlashOutcome::Done(Ok(())), 12);
    assert_eq!(step, TickStep::Done);
    assert_eq!(s.state.state, SrvState::Idle);
    assert!(uds::response_ready(&s));
    assert!(uds::take_response_pending(&mut s));
    assert!(!uds::take_response_pending(&mut s));
    assert_eq!(load_response(&s.state), vec![0x74, 0, 0, 2]);
    assert_eq!(s.ota.state, OtaState::Receiving);
    assert_eq!(uds::dispatch(&mut s, &[0x36, 1, 0xAA, 0xBB], 20), DispatchResult::Pending);
    assert_eq!(uds::tick(&mut s, 21), TickStep::Done);
    assert_eq!(load_response(&s.state), vec![0x76, 1]);
    assert_eq!(uds::dispatch(&mut s, &[0x37], 30), DispatchResult::Pending);
    match uds::tick(&mut s, 31) {
        TickStep::Flash(FlashOp::Write { offset, value, .. }) => {
            assert_eq!(offset, 0x0801_3000);
            assert_eq!(value, 0xFFFF_FFFF_FFFF_BBAA);
        }
        other => panic!("{:?}", other),
    }
    let step = uds::resume(&mut s, FlashOutcome::Done(Ok(())), 32);
    assert_eq!(step, TickStep::Flash(FlashOp::Read { start: 0x0801_3000, len: 2 }));
    let step = uds::resume(&mut s, FlashOutcome::Words(vec![0xFFFF_BBAA]), 33);
    assert_eq!(step, TickStep::Flash(FlashOp::Erase { start: 0x0800_6000, end: 0x0800_6800 }));
    let step = uds::resume(&mut s, FlashOutcome::Done(Ok(())), 34);
    assert!(matches!(step, TickStep::Flash(FlashOp::Write { offset: 0x0800_6000, .. })));
    let step = uds::resume(&mut s, FlashOutcome::Done(Ok(())), 35);
    assert_eq!(step, TickStep::Done);
    assert_eq!(load_response(&s.state), vec![0x77]);
    assert!(foc_rust::ota::take_reset_request(&mut s.ota));
}

#[test]
fn failed_flash_work_is_answered() {
    let mut s = server();
    programming(&mut s);
    uds::dispatch(&mut s, &[0x34, 0, 2, 0, 0, 0], 10);
    uds::tick(&mut s, 11);
    let step = uds::resume(&mut s, FlashOutcome::Done(Err(FlashError::ProgramError)), 12);
    assert_eq!(step, TickStep::Done);
    assert_eq!(load_response(&s.state), vec![0x7F, 0x34, 0x72]);
}

#[test]
fn full_queue_is_refused() {
    let mut s = server();
    programming(&mut s);
    for _ in 0..4 {
        assert_eq!(uds::dispatch(&mut s, &[0x36, 1, 2, 3], 0), DispatchResult::Pending);
    }
    uds::take_response_pending(&mut s);
    assert_eq!(uds::dispatch(&mut s, &[0x36, 1, 2, 3], 0), DispatchResult::Pending);
    assert_eq!(load_response(&s.state), vec![0x7F, 0x36, 0x22]);
    assert_eq!(uds::tick(&mut s, 1), TickStep::Done);
    assert_eq!(s.state.state, SrvState::Idle);
}

#[test]
fn queue_slots_and_waiting() {
    let mut c = static_config::uds_config();
    let mut st = UdsState::zeroed();
    st.request_buf = vec![0x36, 1, 2, 3];
    assert!(push_pending(&mut st, &mut c, PendingFn::Transfer));
    assert!(push_pending(&mut st, &mut c, PendingFn::Exit));
    assert_eq!(c.pending_queue[0], Some(PendingJob::new(PendingFn::Transfer)));
    assert_eq!(c.pending_queue[1], Some(PendingJob::new(PendingFn::Exit)));
    assert_eq!(st.state, SrvState::Pending);
    pending::tick(&mut st, &mut c, [false; 4], 49);
    assert_eq!(take_response(&mut st), None);
    pending::tick(&mut st, &mut c, [false; 4], 50);
    assert_eq!(load_response(&st), vec![0x7F, 0x36, 0x78]);
    assert_eq!(take_response(&mut st), Some(3));
    pending::tick(&mut st, &mut c, [false; 4], 99);
    assert_eq!(take_response(&mut st), None);
    pending::tick(&mut st, &mut c, [true, false, false, false], 100);
    assert_eq!(c.pending_queue[0], None);
    assert_eq!(st.state, SrvState::Pending);
    pending::tick(&mut st, &mut c, [false, true, false, false], 110);
    assert_eq!(st.state, SrvState::Idle);
    assert!(st.response_pending);
    pending::tick(&mut st, &mut c, [false; 4], 500);
    assert_eq!(st.state, SrvState::Idle);
}

#[test]
fn interim_response_needs_a_request() {
    let c = static_config::uds_config();
    let mut st = UdsState::zeroed();
    send_response_pending(&mut st, &c);
    assert_eq!(load_response(&st), Vec::<u8>::new());
}

#[test]
fn update_services_handled_at_once() {
    let mut st = UdsState::zeroed();
    let mut o = Ota::new();
    assert_eq!(download::handle_request(&mut st, &mut o, &[0x34, 1, 2, 0, 0, 0]), None);
    assert_eq!(load_response(&st), vec![0x7F, 0x34, 0x31]);
    let op = download::handle_request(&mut st, &mut o, &[0x34, 0, 2, 0, 0, 0]);
    assert_eq!(op, Some(FlashOp::Erase { start: 0x0801_3000, end: 0x0801_F800 }));
    assert_eq!(download::resume(&mut st, &mut o, FlashOutcome::Done(Ok(()))), None);
    assert_eq!(load_response(&st), vec![0x74, 0, 0, 2]);
    assert_eq!(download::handle_transfer(&mut st, &mut o, &[0x36, 1, 2]), None);
    assert_eq!(load_response(&st), vec![0x7F, 0x36, 0x13]);
    assert_eq!(download::handle_transfer(&mut st, &mut o, &[0x36, 1, 2, 3]), None);
    assert_eq!(load_response(&st), vec![0x76, 1]);
    assert_eq!(download::handle_exit(&mut st, &mut o, &[0x37, 0]), None);
    assert_eq!(load_response(&st), vec![0x7F, 0x37, 0x13]);
    assert!(download::handle_exit(&mut st, &mut o, &[0x37]).is_some());
}

#[test]
fn request_identifiers() {
    assert!(can_id::is_uds_request_id(0x7DF));
    assert!(can_id::is_uds_request_id(0x7E0));
    assert!(!can_id::is_uds_request_id(0x7E8));
    assert_eq!(can_id::response_id_for_request(0x7DF), 0x7E8);
    assert_eq!(can_id::response_id_for_request(0x7E0), 0x7E8);
}

#[test]
fn fd_transport() {
    let mut s = server();
    let frame = |id: FrameId, data: &[u8]| FdFrame { id, data: data.to_vec() };
    let f = frame(FrameId::Standard(0x7E0), &[0x3E, 0x00]);
    assert!(transport::is_uds_frame(&f));
    let r = transport::handle_rx_frame(&mut s, &f, 0).unwrap();
    assert_eq!(r.id, FrameId::Standard(0x7E8));
    assert_eq!(r.data, vec![0x7E, 0x00]);
    let silent = frame(FrameId::Standard(0x7E0), &[0x3E, 0x80]);
    assert!(transport::handle_rx_frame(&mut s, &silent, 0).is_none());
    let other = frame(FrameId::Standard(0x7E1), &[0x3E, 0x00]);
    assert!(!transport::is_uds_frame(&other));
    assert!(transport::handle_rx_frame(&mut s, &other, 0).is_none());
    let extended = frame(FrameId::Extended(0x7E0), &[0x3E, 0x00]);
    assert!(!transport::is_uds_frame(&extended));
    assert!(transport::handle_rx_frame(&mut s, &extended, 0).is_none());
    let empty = frame(FrameId::Standard(0x7E0), &[]);
    assert!(transport::handle_rx_frame(&mut s, &empty, 0).is_none());
}

#[test]
fn pending_work_is_not_answered_yet() {
    let mut s = server();
    programming(&mut s);
    let f = FdFrame { id: FrameId::Standard(0x7E0), data: vec![0x36, 1, 2, 3] };
    assert!(transport::handle_rx_frame(&mut s, &f, 0).is_none());
}

#[test]
fn classic_transport() {
    let mut s = server();
    let f = Frame { id: FrameId::Standard(0x7DF), data: vec![0x22, 0x86, 0xF1] };
    assert!(uds_transport::is_uds_frame(&f));
    let r = uds_transport::handle_rx_frame(&mut s, &f, 0).unwrap();
    assert_eq!(r.id, FrameId::Standard(0x7E8));
    assert_eq!(r.data, vec![0x62, 0x86, 0xF1, 0x01]);
    let again = uds_transport::frame::build_response_frame_for(&s, 0x7DF).unwrap();
    assert_eq!(again.data, r.data);
    assert_eq!(uds_transport::frame::parse_request_frame(&f), &[0x22, 0x86, 0xF1]);
    let extended = Frame { id: FrameId::Extended(0x7DF), data: vec![0x3E, 0] };
    assert!(!uds_transport::is_uds_frame(&extended));
    assert!(uds_transport::handle_rx_frame(&mut s, &extended, 0).is_none());
}

#[test]
fn bridge_blocks_broadcast_security() {
    let mut s = server();
    let t = DefaultUdsTransport;
    let broadcast = FdFrame { id: FrameId::Standard(0x7DF), data: vec![0x27, 0x01] };
    assert!(t.is_uds_frame(&broadcast));
    assert!(t.handle_rx_frame(&mut s, &broadcast, 0).is_none());
    assert_eq!(s.state.seed_sent, [false; 3]);
    let direct = FdFrame { id: FrameId::Standard(0x7E0), data: vec![0x27, 0x01] };
    let r = t.handle_rx_frame(&mut s, &direct, 0).unwrap();
    assert_eq!(r.data, vec![0x67, 0x01, 0xA5, 0xA5, 0xA5, 0xA5]);
    let present = FdFrame { id: FrameId::Standard(0x7DF), data: vec![0x3E, 0x00] };
    assert!(t.handle_rx_frame(&mut s, &present, 0).is_some());
    let other = FdFrame { id: FrameId::Standard(0x123), data: vec![0x3E, 0x00] };
    assert!(t.handle_rx_frame(&mut s, &other, 0).is_none());
}

#[test]
fn seed_answers_only_its_own_level() {
    let mut s = server();
    programming(&mut s);
    ask(&mut s, &[0x10, 0x01]);
    assert_eq!(s.state.seed_sent, [false; 3]);
    programming(&mut s);
    ask(&mut s, &[0x10, 0x02]);
    ask(&mut s, &[0x27, 0x01]);
    assert_eq!(s.state.seed_sent, [true, false, false]);
    assert_eq!(ask(&mut s, &with_key(4, KEY2)), vec![0x7F, 0x27, 0x24]);
    ask(&mut s, &[0x27, 0x03]);
    assert_eq!(ask(&mut s, &with_key(2, KEY1)), vec![0x67, 0x02]);
    assert_eq!(ask(&mut s, &with_key(4, KEY2)), vec![0x67, 0x04]);
    assert_eq!(s.state.security, SecurityLevel::Sal2);
}

#[test]
fn silenced_server_sends_nothing() {
    let mut s = server();
    let t = DefaultUdsTransport;
    let frame = |data: &[u8]| FdFrame { id: FrameId::Standard(0x7E0), data: data.to_vec() };
    let r = t.handle_rx_frame(&mut s, &frame(&[0x3E, 0x00]), 0);
    assert_eq!(transport::outgoing(&s, r).unwrap().data, vec![0x7E, 0x00]);
    let r = t.handle_rx_frame(&mut s, &frame(&[0x28, 0x03, 0x01]), 0);
    assert!(transport::outgoing(&s, r).is_none());
    let r = t.handle_rx_frame(&mut s, &frame(&[0x3E, 0x00]), 0);
    assert!(transport::outgoing(&s, r).is_none());
    let r = t.handle_rx_frame(&mut s, &frame(&[0x28, 0x00, 0x01]), 0);
    assert_eq!(transport::outgoing(&s, r).unwrap().data, vec![0x68, 0x00]);
}

#[test]
fn new_key_material_changes_the_keys() {
    let mut s = server();
    assert_eq!(config::level_mask(&s.config, 1), 0x3000_2212);
    assert_eq!(config::level_mask(&s.config, 2), 0x524C_5E63);
    assert_eq!(config::level_mask(&s.config, 3), 0xA5C3_F11B);
    programming(&mut s);
    unlock(&mut s, 2);
    let mut request = vec![0x2E, 0x80, 0xF1];
    request.extend((0..48).map(|i| i as u8 + 1));
    assert_eq!(ask(&mut s, &request), vec![0x6E, 0x80, 0xF1]);
    ask(&mut s, &[0x10, 0x01]);
    ask(&mut s, &[0x27, 0x01]);
    assert_eq!(ask(&mut s, &with_key(2, KEY1)), vec![0x7F, 0x27, 0x35]);
    ask(&mut s, &[0x27, 0x01]);
    let key = security::generate_key(0xA5A5_A5A5, 0x0102_0304);
    assert_eq!(ask(&mut s, &with_key(2, key)), vec![0x67, 0x02]);
}

#[test]
fn long_requests_can_be_refused() {
    let mut s = server();
    assert_eq!(ask(&mut s, &[0xAA; 100]), vec![0x7F, 0xAA, 0x11]);
    let mut request = [0u8; 100];
    request[0] = 0x36;
    assert_eq!(ask(&mut s, &request), vec![0x7F, 0x36, 0x7F]);
    assert_eq!(load_request(&s.state), Vec::<u8>::new());
}
