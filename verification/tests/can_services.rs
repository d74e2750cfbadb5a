use foc_rust::can::canopen::{
    apply_nmt_command, build_heartbeat_frame, CanopenNode, NmtState, NodeStep,
};
use foc_rust::can::frame::{FdFrame, Frame, FrameError, FrameId};
use foc_rust::can::od::{self, ObjectDictionary, OdValue, OdWrite, SdoAbort};
use foc_rust::can::sdo::{
    build_upload_response, build_upload_segment_response, dispatch, is_sdo_request, parse_request,
    SdoRequest, SdoServer, SdoStep, SdoUpload,
};
use foc_rust::can::uds::{self, GatewayStep, UdsGateway};
use foc_rust::drivers::flash::{FlashOp, FlashOutcome};
use foc_rust::ota::Ota;

fn ask(server: &mut SdoServer, data: [u8; 8]) -> Option<Vec<u8>> {
    match dispatch(server, &data) {
        SdoStep::Respond(None) => None,
        SdoStep::Respond(Some(frame)) => {
            assert_eq!(frame.id, FrameId::Standard(0x581));
            Some(frame.data)
        }
        SdoStep::Flash(_) => panic!("no flash work expected"),
    }
}

fn request(gateway: &mut UdsGateway, ota: &mut Ota, bytes: &[u8]) -> Vec<u8> {
    match uds::dispatch(gateway, ota, bytes) {
        GatewayStep::Stored(len) => {
            assert_eq!(len, gateway.response.len());
            gateway.response.clone()
        }
        GatewayStep::Flash(_) => panic!("no flash work expected"),
    }
}

#[test]
fn classic_frame_keeps_id_and_data() {
    let f = Frame::new_standard(0x581, &[1, 2, 3]).unwrap();
    assert_eq!(f.id, FrameId::Standard(0x581));
    assert_eq!(f.data, vec![1, 2, 3]);
    assert!(f.has_standard_id(0x581));
    assert!(!f.has_standard_id(0x601));
}

#[test]
fn classic_frame_refusals() {
    assert_eq!(Frame::new_standard(0x800, &[0; 9]).unwrap_err(), FrameError::InvalidCanId);
    assert_eq!(Frame::new_standard(0x7FF, &[0; 9]).unwrap_err(), FrameError::InvalidDataLength);
    assert_eq!(Frame::new_standard(0x7FF, &[0; 8]).unwrap().data.len(), 8);
}

#[test]
fn fd_frame_lengths() {
    for len in 0..=65usize {
        let ok = len <= 8 || [12, 16, 20, 24, 32, 48, 64].contains(&len);
        let data = vec![0xABu8; len];
        match FdFrame::new_standard(0x7E8, &data) {
            Ok(f) => {
                assert!(ok);
                assert_eq!(f.id, FrameId::Standard(0x7E8));
                assert_eq!(f.data, data);
            }
            Err(e) => {
                assert!(!ok);
                assert_eq!(e, FrameError::InvalidDataLength);
            }
        }
    }
    assert_eq!(FdFrame::new_standard(0x800, &[]).unwrap_err(), FrameError::InvalidCanId);
}

#[test]
fn heartbeat_bytes() {
    assert_eq!(NmtState::Booting.heartbeat_byte(), 0x00);
    assert_eq!(NmtState::Stopped.heartbeat_byte(), 0x04);
    assert_eq!(NmtState::Operational.heartbeat_byte(), 0x05);
    assert_eq!(NmtState::PreOperational.heartbeat_byte(), 0x7F);
    let f = build_heartbeat_frame(NmtState::Operational);
    assert_eq!(f.id, FrameId::Standard(0x701));
    assert_eq!(f.data, vec![0x05]);
}

#[test]
fn nmt_commands() {
    let s = NmtState::PreOperational;
    assert_eq!(apply_nmt_command(s, 0x01), Some(NmtState::Operational));
    assert_eq!(apply_nmt_command(s, 0x02), Some(NmtState::Stopped));
    assert_eq!(apply_nmt_command(s, 0x80), Some(NmtState::PreOperational));
    assert_eq!(apply_nmt_command(s, 0x81), None);
    assert_eq!(apply_nmt_command(s, 0x82), None);
    assert_eq!(apply_nmt_command(s, 0x33), None);
}

#[test]
fn od_value_layout() {
    assert_eq!(OdValue::u8(0x12), OdValue { bytes: [0x12, 0, 0, 0, 0, 0, 0], len: 1 });
    assert_eq!(OdValue::u16(0x1234), OdValue { bytes: [0x34, 0x12, 0, 0, 0, 0, 0], len: 2 });
    assert_eq!(
        OdValue::u32(0x1234_5678),
        OdValue { bytes: [0x78, 0x56, 0x34, 0x12, 0, 0, 0], len: 4 }
    );
}

#[test]
fn abort_codes() {
    assert_eq!(SdoAbort::NotSupported.code(), 0x0601_0000);
    assert_eq!(SdoAbort::NotExist.code(), 0x0602_0000);
    assert_eq!(SdoAbort::NoSubindex.code(), 0x0604_0043);
    assert_eq!(SdoAbort::ReadOnly.code(), 0x0601_0002);
    assert_eq!(SdoAbort::LengthMismatch.code(), 0x0607_0010);
    assert_eq!(SdoAbort::LocalControl.code(), 0x0800_0022);
    assert_eq!(SdoAbort::InvalidCommand.code(), 0x0504_0001);
}

#[test]
fn dictionary_entries() {
    let d = ObjectDictionary::new();
    let g = UdsGateway::new();
    assert_eq!(od::read(&d, &g, 0x1000, 0), Ok(OdValue::u32(0)));
    assert_eq!(od::read(&d, &g, 0x1001, 0), Ok(OdValue::u8(0)));
    assert_eq!(od::read(&d, &g, 0x1017, 0), Ok(OdValue::u16(1000)));
    assert_eq!(od::read(&d, &g, 0x1018, 1), Ok(OdValue::u32(0xCAFE)));
    assert_eq!(od::read(&d, &g, 0x1018, 2), Ok(OdValue::u32(0xB0)));
    assert_eq!(od::read(&d, &g, 0x1018, 3), Ok(OdValue::u32(1)));
    assert_eq!(od::read(&d, &g, 0x1018, 4), Ok(OdValue::u32(0)));
    assert_eq!(od::read(&d, &g, 0x1018, 0), Err(SdoAbort::NotExist));
    assert_eq!(od::read(&d, &g, 0x1018, 5), Err(SdoAbort::NoSubindex));
    assert_eq!(od::read(&d, &g, 0x2000, 0), Err(SdoAbort::NotExist));
}

#[test]
fn dictionary_writes() {
    let mut d = ObjectDictionary::new();
    let mut g = UdsGateway::new();
    let mut o = Ota::new();
    let w = od::write(&mut d, &mut g, &mut o, 0x1017, 0, OdValue::u16(250));
    assert_eq!(w, Ok(OdWrite::Done));
    assert_eq!(od::heartbeat_period_ms(&d), 250);
    let w = od::write(&mut d, &mut g, &mut o, 0x1017, 0, OdValue::u32(250));
    assert_eq!(w, Err(SdoAbort::LengthMismatch));
    for index in [0x1000u16, 0x1001, 0x1018] {
        let w = od::write(&mut d, &mut g, &mut o, index, 9, OdValue::u8(1));
        assert_eq!(w, Err(SdoAbort::ReadOnly));
    }
    let w = od::write(&mut d, &mut g, &mut o, 0x1017, 1, OdValue::u16(250));
    assert_eq!(w, Err(SdoAbort::NotExist));
    od::set_heartbeat_period_ms(&mut d, 0);
    assert_eq!(od::heartbeat_period_ms(&d), 0);
}

#[test]
fn sdo_requests_are_parsed() {
    let mut u = SdoUpload::new();
    match parse_request(&mut u, &[0x2B, 0x17, 0x10, 0, 0xFA, 0, 0, 0]) {
        Some(Ok(SdoRequest::Download { index, sub, value })) => {
            assert_eq!((index, sub), (0x1017, 0));
            assert_eq!(value, OdValue::u16(250));
        }
        other => panic!("{:?}", other),
    }
    match parse_request(&mut u, &[0x2F, 0, 0x20, 1, 7, 9, 9, 9]) {
        Some(Ok(SdoRequest::Download { value, .. })) => assert_eq!(value, OdValue::u8(7)),
        other => panic!("{:?}", other),
    }
    match parse_request(&mut u, &[0x40, 0x18, 0x10, 2, 0, 0, 0, 0]) {
        Some(Ok(SdoRequest::Upload { index, sub })) => assert_eq!((index, sub), (0x1018, 2)),
        other => panic!("{:?}", other),
    }
    match parse_request(&mut u, &[0x70, 0, 0, 0, 0, 0, 0, 0]) {
        Some(Ok(SdoRequest::UploadSegment { toggle })) => assert_eq!(toggle, 1),
        other => panic!("{:?}", other),
    }
    assert!(parse_request(&mut u, &[0x40, 0, 0]).is_none());
    assert!(parse_request(&mut u, &[0x80, 0, 0, 0, 0, 0, 0, 0]).is_none());
    for cmd in [0x20u8, 0x21, 0x22, 0x00, 0xA0, 0xC0, 0xE0] {
        match parse_request(&mut u, &[cmd, 0, 0, 0, 0, 0, 0, 0]) {
            Some(Err(abort)) => assert_eq!(abort, SdoAbort::InvalidCommand),
            other => panic!("{:?}", other),
        }
    }
}

#[test]
fn sdo_expedited_reads() {
    let mut s = SdoServer::new();
    assert_eq!(
        ask(&mut s, [0x40, 0x17, 0x10, 0, 0, 0, 0, 0]),
        Some(vec![0x8E, 0x17, 0x10, 0, 0xE8, 0x03, 0, 0])
    );
    assert_eq!(
        ask(&mut s, [0x40, 0x01, 0x10, 0, 0, 0, 0, 0]),
        Some(vec![0x8F, 0x01, 0x10, 0, 0, 0, 0, 0])
    );
    assert_eq!(
        ask(&mut s, [0x40, 0x18, 0x10, 1, 0, 0, 0, 0]),
        Some(vec![0x8C, 0x18, 0x10, 1, 0xFE, 0xCA, 0, 0])
    );
    assert_eq!(
        ask(&mut s, [0x40, 0x18, 0x10, 9, 0, 0, 0, 0]),
        Some(vec![0x80, 0x18, 0x10, 9, 0x43, 0x00, 0x04, 0x06])
    );
}

#[test]
fn sdo_write_reads_back() {
    let mut s = SdoServer::new();
    assert_eq!(
        ask(&mut s, [0x2B, 0x17, 0x10, 0, 0xF4, 0x01, 0, 0]),
        Some(vec![0x60, 0, 0, 0, 0, 0, 0, 0])
    );
    assert_eq!(
        ask(&mut s, [0x40, 0x17, 0x10, 0, 0, 0, 0, 0]),
        Some(vec![0x8E, 0x17, 0x10, 0, 0xF4, 0x01, 0, 0])
    );
    assert_eq!(
        ask(&mut s, [0x2F, 0x17, 0x10, 0, 1, 0, 0, 0]),
        Some(vec![0x80, 0x17, 0x10, 0, 0x10, 0x00, 0x07, 0x06])
    );
    assert_eq!(
        ask(&mut s, [0x20, 0x17, 0x10, 0, 1, 0, 0, 0]),
        Some(vec![0x80, 0, 0, 0, 0x01, 0x00, 0x04, 0x05])
    );
}

#[test]
fn sdo_segmented_upload() {
    let mut s = SdoServer::new();
    let value = OdValue::from_slice(&[1, 2, 3, 4, 5, 6]);
    let f = build_upload_response(&mut s.upload, 0x2F00, 0, value);
    assert_eq!(f.data, vec![0x82, 0x00, 0x2F, 0, 6, 0, 0, 0]);
    assert_eq!(
        ask(&mut s, [0x60, 0, 0, 0, 0, 0, 0, 0]),
        Some(vec![0xA3, 1, 2, 3, 4, 5, 6, 0])
    );
    let abort = vec![0x80, 0, 0, 0, 0x01, 0x00, 0x04, 0x05];
    assert_eq!(ask(&mut s, [0x70, 0, 0, 0, 0, 0, 0, 0]), Some(abort));
}

#[test]
fn sdo_wrong_toggle_drops_the_transfer() {
    let mut s = SdoServer::new();
    build_upload_response(&mut s.upload, 0x2F00, 0, OdValue::from_slice(&[1, 2, 3, 4, 5]));
    let abort = vec![0x80, 0, 0, 0, 0x01, 0x00, 0x04, 0x05];
    assert_eq!(ask(&mut s, [0x70, 0, 0, 0, 0, 0, 0, 0]), Some(abort.clone()));
    assert_eq!(ask(&mut s, [0x60, 0, 0, 0, 0, 0, 0, 0]), Some(abort));
}

#[test]
fn sdo_client_abort_drops_the_transfer() {
    let mut s = SdoServer::new();
    build_upload_response(&mut s.upload, 0x2F00, 0, OdValue::from_slice(&[1, 2, 3, 4, 5]));
    assert_eq!(ask(&mut s, [0x80, 0, 0, 0, 0, 0, 0, 0]), None);
    let f = build_upload_segment_response(&mut s.upload, 0);
    assert_eq!(f.data, vec![0x80, 0, 0, 0, 0x01, 0x00, 0x04, 0x05]);
}

#[test]
fn sdo_request_identifier() {
    assert!(is_sdo_request(&Frame { id: FrameId::Standard(0x601), data: vec![] }));
    assert!(!is_sdo_request(&Frame { id: FrameId::Standard(0x602), data: vec![] }));
    assert!(!is_sdo_request(&Frame { id: FrameId::Extended(0x601), data: vec![] }));
}

#[test]
fn gateway_over_sdo() {
    let mut s = SdoServer::new();
    let ok = Some(vec![0x60, 0, 0, 0, 0, 0, 0, 0]);
    assert_eq!(ask(&mut s, [0x2B, 0x00, 0x2F, 0, 0x10, 0x02, 0, 0]), ok);
    assert_eq!(
        ask(&mut s, [0x40, 0x00, 0x2F, 0, 0, 0, 0, 0]),
        Some(vec![0x8E, 0x00, 0x2F, 0, 0x50, 0x02, 0, 0])
    );
    assert_eq!(ask(&mut s, [0x27, 0x00, 0x2F, 0, 0x22, 0x86, 0xF1, 0]), ok);
    assert_eq!(
        ask(&mut s, [0x40, 0x00, 0x2F, 0, 0, 0, 0, 0]),
        Some(vec![0x8C, 0x00, 0x2F, 0, 0x62, 0x86, 0xF1, 0x02])
    );
    assert_eq!(ask(&mut s, [0x2B, 0x00, 0x2F, 0, 0x3E, 0x80, 0, 0]), ok);
    assert_eq!(ask(&mut s, [0x40, 0x00, 0x2F, 0, 0, 0, 0, 0]), None);
}

#[test]
fn gateway_services() {
    let mut g = UdsGateway::new();
    let mut o = Ota::new();
    assert_eq!(request(&mut g, &mut o, &[]), vec![0x7F, 0x00, 0x13]);
    assert_eq!(request(&mut g, &mut o, &[0x10, 0x03]), vec![0x7F, 0x10, 0x12]);
    assert_eq!(request(&mut g, &mut o, &[0x10]), vec![0x7F, 0x10, 0x13]);
    assert_eq!(request(&mut g, &mut o, &[0x11, 0x02]), vec![0x7F, 0x11, 0x12]);
    assert_eq!(request(&mut g, &mut o, &[0x11]), vec![0x7F, 0x11, 0x13]);
    assert_eq!(request(&mut g, &mut o, &[0x14, 1, 2, 3]), vec![0x54]);
    assert_eq!(request(&mut g, &mut o, &[0x14, 1]), vec![0x7F, 0x14, 0x13]);
    assert_eq!(request(&mut g, &mut o, &[0x19, 0x02, 0xFF]), vec![0x59, 0x02, 0, 0]);
    assert_eq!(request(&mut g, &mut o, &[0x19, 0x01, 0xFF]), vec![0x7F, 0x19, 0x12]);
    assert_eq!(request(&mut g, &mut o, &[0x19, 0x02]), vec![0x7F, 0x19, 0x13]);
    assert_eq!(request(&mut g, &mut o, &[0x22, 0x86, 0xF1]), vec![0x62, 0x86, 0xF1, 0x01]);
    assert_eq!(request(&mut g, &mut o, &[0x22, 0x87, 0xF1]), vec![0x7F, 0x22, 0x31]);
    assert_eq!(request(&mut g, &mut o, &[0x22, 0x86]), vec![0x7F, 0x22, 0x13]);
    assert_eq!(request(&mut g, &mut o, &[0x2E, 0x86, 0xF1, 1]), vec![0x7F, 0x2E, 0x31]);
    assert_eq!(request(&mut g, &mut o, &[0x2E, 0x86]), vec![0x7F, 0x2E, 0x13]);
    assert_eq!(request(&mut g, &mut o, &[0x3E, 0x00]), vec![0x7E, 0x00]);
    assert_eq!(request(&mut g, &mut o, &[0x3E, 0x80]), Vec::<u8>::new());
    assert_eq!(request(&mut g, &mut o, &[0x3E, 0x01]), vec![0x7F, 0x3E, 0x12]);
    assert_eq!(request(&mut g, &mut o, &[0x3E]), vec![0x7F, 0x3E, 0x13]);
    assert_eq!(request(&mut g, &mut o, &[0x99]), vec![0x7F, 0x99, 0x12]);
    assert_eq!(request(&mut g, &mut o, &[0x34, 0, 2, 0, 0, 0]), vec![0x7F, 0x34, 0x22]);
}

#[test]
fn gateway_security() {
    let mut g = UdsGateway::new();
    let mut o = Ota::new();
    assert_eq!(request(&mut g, &mut o, &[0x27]), vec![0x7F, 0x27, 0x13]);
    assert_eq!(request(&mut g, &mut o, &[0x27, 0x05]), vec![0x7F, 0x27, 0x12]);
    assert_eq!(request(&mut g, &mut o, &[0x27, 0x01]), vec![0x67, 0x01, 0xA5, 0xA5]);
    assert_eq!(request(&mut g, &mut o, &[0x27, 0x02, 0xB7]), vec![0x7F, 0x27, 0x13]);
    assert_eq!(request(&mut g, &mut o, &[0x27, 0x02, 0xB8, 0xA5]), vec![0x7F, 0x27, 0x33]);
    assert!(!g.unlocked);
    assert_eq!(request(&mut g, &mut o, &[0x27, 0x02, 0xB7, 0xA5]), vec![0x67, 0x02]);
    assert!(g.unlocked);
    assert_eq!(request(&mut g, &mut o, &[0x27, 0x01]), vec![0x7F, 0x27, 0x33]);
    assert_eq!(request(&mut g, &mut o, &[0x10, 0x02]), vec![0x50, 0x02]);
    assert!(!g.unlocked);
}

#[test]
fn gateway_stores_long_responses() {
    let mut g = UdsGateway::new();
    assert_eq!(uds::store_external_response(&mut g, &[1, 2, 3, 4, 5, 6, 7, 8, 9]), 7);
    assert_eq!(g.response, vec![1, 2, 3, 4, 5, 6, 7]);
    assert_eq!(uds::load_response(&g), OdValue::from_slice(&[1, 2, 3, 4]));
    assert_eq!(uds::store_positive(&mut g, &[0x62, 1, 2, 3, 4]), 3);
    assert_eq!(g.response, vec![0x7F, 0x22, 0x14]);
}

#[test]
fn gateway_forwards_the_update() {
    let mut g = UdsGateway::new();
    let mut o = Ota::new();
    request(&mut g, &mut o, &[0x10, 0x02]);
    match uds::dispatch(&mut g, &mut o, &[0x34, 0, 2, 0, 0, 0]) {
        GatewayStep::Flash(FlashOp::Erase { start, end }) => {
            assert_eq!((start, end), (0x0801_3000, 0x0801_F800));
        }
        other => panic!("{:?}", other),
    }
    let step = uds::resume(&mut g, &mut o, FlashOutcome::Done(Ok(())));
    assert_eq!(step, GatewayStep::Stored(4));
    assert_eq!(g.response, vec![0x74, 0, 0, 2]);
    assert_eq!(request(&mut g, &mut o, &[0x36, 1, 7, 8]), vec![0x76, 1]);
}

#[test]
fn node_boots_and_beats() {
    let (mut node, frame) = CanopenNode::boot();
    assert_eq!(frame.id, FrameId::Standard(0x701));
    assert_eq!(frame.data, vec![0]);
    let t = node.on_tick();
    assert_eq!(t.frame.unwrap().data, vec![0x7F]);
    assert_eq!(t.rearm_ms, None);
}

#[test]
fn node_heeds_network_management() {
    let (mut node, _) = CanopenNode::boot();
    let nmt = |id: FrameId, data: &[u8]| Frame { id, data: data.to_vec() };
    node.on_frame(&nmt(FrameId::Standard(0), &[0x01, 0x01]));
    assert_eq!(node.nmt, NmtState::Operational);
    node.on_frame(&nmt(FrameId::Standard(0), &[0x02, 0x00]));
    assert_eq!(node.nmt, NmtState::Operational);
    node.on_frame(&nmt(FrameId::Standard(0), &[0x02, 0x01]));
    assert_eq!(node.nmt, NmtState::Stopped);
    node.on_frame(&nmt(FrameId::Standard(0), &[0x01, 0x02]));
    assert_eq!(node.nmt, NmtState::Stopped);
    node.on_frame(&nmt(FrameId::Standard(0), &[0x01]));
    assert_eq!(node.nmt, NmtState::Stopped);
    node.on_frame(&nmt(FrameId::Extended(0), &[0x01, 0x01]));
    assert_eq!(node.nmt, NmtState::Stopped);
    node.on_frame(&nmt(FrameId::Standard(0), &[0x81, 0x01]));
    assert_eq!(node.nmt, NmtState::Stopped);
}

#[test]
fn node_follows_the_heartbeat_period() {
    let (mut node, _) = CanopenNode::boot();
    let write = |ms: u16| Frame {
        id: FrameId::Standard(0x601),
        data: vec![0x2B, 0x17, 0x10, 0, ms as u8, (ms >> 8) as u8, 0, 0],
    };
    node.on_frame(&write(200));
    assert_eq!(node.on_tick().rearm_ms, Some(200));
    assert_eq!(node.on_tick().rearm_ms, None);
    node.on_frame(&write(0));
    let t = node.on_tick();
    assert!(t.frame.is_none());
    assert_eq!(t.rearm_ms, None);
    node.on_frame(&write(300));
    let t = node.on_tick();
    assert!(t.frame.is_some());
    assert_eq!(t.rearm_ms, Some(300));
}

#[test]
fn node_resets_once() {
    let (mut node, _) = CanopenNode::boot();
    let reset = Frame {
        id: FrameId::Standard(0x601),
        data: vec![0x2B, 0x00, 0x2F, 0, 0x11, 0x01, 0, 0],
    };
    match node.on_frame(&reset) {
        NodeStep::Respond { frame, reset } => {
            assert_eq!(frame.data[0], 0x60);
            assert!(reset);
        }
        other => panic!("{:?}", other),
    }
    let short = Frame { id: FrameId::Standard(0x601), data: vec![0x40, 0x01, 0x10] };
    match node.on_frame(&short) {
        NodeStep::Respond { frame, reset } => {
            assert_eq!(frame.data, vec![0x8F, 0x01, 0x10, 0, 0, 0, 0, 0]);
            assert!(!reset);
        }
        other => panic!("{:?}", other),
    }
}

#[test]
fn node_ignores_commands_to_all_nodes() {
    let (mut node, _) = CanopenNode::boot();
    let all = Frame { id: FrameId::Standard(0), data: vec![0x01, 0x00] };
    assert!(matches!(node.on_frame(&all), NodeStep::Nothing));
    assert_eq!(node.nmt, NmtState::PreOperational);
    let beat = node.on_tick().frame.unwrap();
    assert_eq!(beat.id, FrameId::Standard(0x701));
    assert_eq!(beat.data, vec![0x7F]);
}

#[test]
fn stopped_node_serves_no_dictionary() {
    let (mut node, _) = CanopenNode::boot();
    let nmt = |cmd: u8| Frame { id: FrameId::Standard(0), data: vec![cmd, 0x01] };
    let read = Frame {
        id: FrameId::Standard(0x601),
        data: vec![0x40, 0x17, 0x10, 0, 0, 0, 0, 0],
    };
    node.on_frame(&nmt(0x02));
    assert!(matches!(node.on_frame(&read), NodeStep::Nothing));
    assert_eq!(node.on_tick().frame.unwrap().data, vec![0x04]);
    node.on_frame(&nmt(0x80));
    assert!(matches!(node.on_frame(&read), NodeStep::Respond { .. }));
}

#[test]
fn silenced_node_sends_nothing() {
    let (mut node, _) = CanopenNode::boot();
    let read = Frame {
        id: FrameId::Standard(0x601),
        data: vec![0x40, 0x17, 0x10, 0, 0, 0, 0, 0],
    };
    let reset = Frame {
        id: FrameId::Standard(0x601),
        data: vec![0x2B, 0x00, 0x2F, 0, 0x11, 0x01, 0, 0],
    };
    assert!(node.on_tick().outgoing(true).is_none());
    assert_eq!(node.on_tick().outgoing(false).unwrap().data, vec![0x7F]);
    assert!(node.on_frame(&read).outgoing(true).is_none());
    let response = node.on_frame(&read).outgoing(false).unwrap();
    assert_eq!(response.id, FrameId::Standard(0x581));
    assert_eq!(response.data, vec![0x8E, 0x17, 0x10, 0, 0xE8, 0x03, 0, 0]);
    assert!(!node.on_frame(&read).resets());
    let step = node.on_frame(&reset);
    assert!(step.resets());
    assert!(step.outgoing(true).is_none());
    assert!(NodeStep::Nothing.outgoing(false).is_none());
}

#[test]
fn bytes_behind_a_value_are_ignored() {
    let mut upload = SdoUpload::new();
    let value = OdValue { bytes: [0x12, 9, 9, 9, 9, 9, 9], len: 1 };
    let f = build_upload_response(&mut upload, 0x1001, 0, value);
    assert_eq!(f.data, vec![0x8F, 0x01, 0x10, 0, 0x12, 0, 0, 0]);
    let value = OdValue { bytes: [1, 2, 3, 9, 9, 9, 9], len: 3 };
    let f = build_upload_response(&mut upload, 0x1001, 0, value);
    assert_eq!(f.data, vec![0x8D, 0x01, 0x10, 0, 1, 2, 3, 0]);
    let mut d = ObjectDictionary::new();
    let value = OdValue { bytes: [0xFA, 0, 9, 9, 9, 9, 9], len: 2 };
    let mut g = UdsGateway::new();
    let mut o = Ota::new();
    assert_eq!(od::write(&mut d, &mut g, &mut o, 0x1017, 0, value), Ok(OdWrite::Done));
    assert_eq!(d.heartbeat_ms, 250);
}
