//! Diagnostics over classic CAN: one frame of up to eight bytes for a
//! request, one for the response.

pub mod frame;

use vstd::prelude::*;

use crate::can::frame::Frame;
use crate::can::frame::FrameId;
use crate::uds;
use crate::uds::pending::DispatchResult;
use crate::uds::transport;
use crate::uds::transport::can_id;
use crate::uds::UdsServer;

verus! {

/// Whether a frame is a diagnostic request.
pub fn is_uds_frame(frame: &Frame) -> (b: bool)
    ensures
        b == transport::is_request(frame.id),
{
    match frame.id {
        FrameId::Standard(id) => can_id::is_uds_request_id(id),
        FrameId::Extended(_) => false,
    }
}

/// Handles a received frame; the response frame is returned to be sent.
pub fn handle_rx_frame(server: &mut UdsServer, frame: &Frame, now_ms: u32) -> (response: Option<
    Frame,
>)
    requires
        old(server).wf(),
        frame.data@.len() <= frame::UDS_FRAME_MAX,
    ensures
        final(server)@ == transport::received(old(server)@, frame.id, frame.data@, now_ms).0,
        frame::carries(
            response,
            transport::received(old(server)@, frame.id, frame.data@, now_ms).1,
        ),
        final(server).wf(),
{
    let id: u16 = match frame.id {
        FrameId::Standard(id) => id,
        FrameId::Extended(_) => {
            return None;
        },
    };
    if !can_id::is_uds_request_id(id) {
        return None;
    }
    let request = frame::parse_request_frame(frame);
    if request.len() == 0 {
        return None;
    }
    match uds::dispatch(server, request, now_ms) {
        DispatchResult::Ready => frame::build_response_frame(server, id),
        DispatchResult::Pending => None,
    }
}

} // verus!
