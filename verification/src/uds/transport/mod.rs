//! Diagnostics over CAN FD: one frame for a request, one for the response.

pub mod can_id;

use vstd::prelude::*;

use crate::can::frame;
use crate::can::frame::FdFrame;
use crate::can::frame::FrameId;
use crate::uds;
use crate::uds::pending::DispatchResult;
use crate::uds::state;
use crate::uds::state::UdsModel;
use crate::uds::ServerModel;
use crate::uds::UdsServer;

verus! {

/// Most bytes of a request or response.
pub const UDS_FRAME_MAX: usize = 64;

/// Whether frames with this identifier are diagnostic requests.
pub open spec fn is_request(id: FrameId) -> bool {
    id == FrameId::Standard(can_id::COB_ID_FUNCTIONAL_REQUEST) || id == FrameId::Standard(
        can_id::COB_ID_PHYSICAL_REQUEST,
    )
}

/// The payload of the response frame; an empty response is not sent.
pub open spec fn response_payload(s: UdsModel) -> Option<Seq<u8>> {
    if s.response.len() == 0 {
        None
    } else {
        Some(s.response)
    }
}

/// Server and response payload after a request. While work is pending there
/// is no response yet.
pub open spec fn exchanged(m: ServerModel, request: Seq<u8>, now_ms: u32) -> (
    ServerModel,
    Option<Seq<u8>>,
) {
    let after = uds::dispatched(m.state, m.config, request, now_ms);
    (
        ServerModel { state: after.0, config: after.1, ..m },
        if after.0.state is Pending {
            None
        } else {
            response_payload(after.0)
        },
    )
}

/// Server and response payload after a frame. Frames that are no requests,
/// and empty ones, are ignored.
pub open spec fn received(m: ServerModel, id: FrameId, data: Seq<u8>, now_ms: u32) -> (
    ServerModel,
    Option<Seq<u8>>,
) {
    if !is_request(id) || data.len() == 0 {
        (m, None)
    } else {
        exchanged(m, data, now_ms)
    }
}

/// Whether a response frame carries `payload`, or is absent where there is
/// none.
pub open spec fn carries(frame: Option<FdFrame>, payload: Option<Seq<u8>>) -> bool {
    match frame {
        None => payload is None,
        Some(f) => f.id == FrameId::Standard(can_id::COB_ID_PHYSICAL_RESPONSE) && payload == Some(
            f.data@,
        ),
    }
}

/// Whether a frame is a diagnostic request.
pub fn is_uds_frame(frame: &FdFrame) -> (b: bool)
    ensures
        b == is_request(frame.id),
{
    match frame.id {
        FrameId::Standard(id) => can_id::is_uds_request_id(id),
        FrameId::Extended(_) => false,
    }
}

/// The frame with the last response, unless it is empty.
pub fn build_response_frame(server: &UdsServer, request_id: u16) -> (frame: Option<FdFrame>)
    requires
        server.wf(),
    ensures
        carries(frame, response_payload(server@.state)),
{
    let response = state::load_response(&server.state);
    if response.len() == 0 {
        return None;
    }
    let id: u16 = can_id::response_id_for_request(request_id);
    match FdFrame::new_standard(id, response.as_slice()) {
        Ok(frame) => Some(frame),
        Err(_) => None,
    }
}

/// The request that a frame carries.
pub fn parse_request_frame(frame: &FdFrame) -> (request: &[u8])
    ensures
        request@ == frame.data@,
{
    frame.data.as_slice()
}

/// Runs a request and makes the response frame, once there is one.
pub fn exchange(server: &mut UdsServer, request_id: u16, request: &[u8], now_ms: u32) -> (frame:
    Option<FdFrame>)
    requires
        old(server).wf(),
        request@.len() <= UDS_FRAME_MAX,
    ensures
        final(server)@ == exchanged(old(server)@, request@, now_ms).0,
        carries(frame, exchanged(old(server)@, request@, now_ms).1),
        final(server).wf(),
{
    match uds::dispatch(server, request, now_ms) {
        DispatchResult::Ready => build_response_frame(server, request_id),
        DispatchResult::Pending => None,
    }
}

/// Handles a received frame; the response frame is returned to be sent.
pub fn handle_rx_frame(server: &mut UdsServer, frame: &FdFrame, now_ms: u32) -> (response: Option<
    FdFrame,
>)
    requires
        old(server).wf(),
        frame.data@.len() <= UDS_FRAME_MAX,
    ensures
        final(server)@ == received(old(server)@, frame.id, frame.data@, now_ms).0,
        carries(response, received(old(server)@, frame.id, frame.data@, now_ms).1),
        final(server).wf(),
{
    let id: u16 = match frame.id {
        FrameId::Standard(id) => id,
        FrameId::Extended(_) => {
            return None;
        },
    };
    if !can_id::is_uds_request_id(id) {
        return None;
    }
    let request = parse_request_frame(frame);
    if request.len() == 0 {
        return None;
    }
    exchange(server, id, request, now_ms)
}

/// The response frame that goes out: none while transmission is switched
/// off.
pub fn outgoing(server: &UdsServer, response: Option<FdFrame>) -> (frame: Option<FdFrame>)
    ensures
        frame == frame::sent(response, server@.state.tx_disabled),
{
    if uds::tx_disabled(server) {
        None
    } else {
        response
    }
}

/// Frames that are no diagnostic requests change nothing and are not
/// answered.
pub proof fn law_other_frames_are_ignored(m: ServerModel, id: FrameId, data: Seq<u8>, now_ms: u32)
    requires
        !is_request(id),
    ensures
        received(m, id, data, now_ms) == (m, None::<Seq<u8>>),
{
}

/// A frame with the standard identifier 0x7DF or 0x7E0 that is not empty is a
/// request: the server takes its bytes, and unless work is pending or the
/// response is empty, the response goes out whole. All other frames change
/// nothing and are not answered.
pub proof fn law_request_frames(m: ServerModel, id: FrameId, data: Seq<u8>, now_ms: u32)
    ensures
        ({
            let after = received(m, id, data, now_ms);
            let took = uds::dispatched(m.state, m.config, data, now_ms);
            if (id == FrameId::Standard(0x7DF) || id == FrameId::Standard(0x7E0)) && data.len()
                > 0 {
                &&& after.0 == (ServerModel { state: took.0, config: took.1, ..m })
                &&& after.1 == if took.0.state is Pending || took.0.response.len() == 0 {
                    None
                } else {
                    Some(took.0.response)
                }
            } else {
                after == (m, None::<Seq<u8>>)
            }
        }),
{
}

/// A response frame has the standard identifier 0x7E8.
pub proof fn law_response_frames(frame: FdFrame, payload: Option<Seq<u8>>)
    requires
        carries(Some(frame), payload),
    ensures
        frame.id == FrameId::Standard(0x7E8),
        payload == Some(frame.data@),
{
}

} // verus!
