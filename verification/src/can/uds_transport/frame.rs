//! Response frames and request payloads on classic CAN.

use vstd::prelude::*;

use crate::can::frame::Frame;
use crate::can::frame::FrameId;
use crate::uds::state;
use crate::uds::transport;
use crate::uds::transport::can_id;
use crate::uds::UdsServer;

verus! {

/// Most bytes of a request or response.
pub const UDS_FRAME_MAX: usize = 8;

/// Whether a response frame carries `payload`, or is absent where there is
/// none.
pub open spec fn carries(frame: Option<Frame>, payload: Option<Seq<u8>>) -> bool {
    match frame {
        None => payload is None,
        Some(f) => f.id == FrameId::Standard(can_id::COB_ID_PHYSICAL_RESPONSE) && payload == Some(
            f.data@,
        ),
    }
}

/// The frame with the last response, unless it is empty.
pub fn build_response_frame(server: &UdsServer, request_id: u16) -> (frame: Option<Frame>)
    requires
        server.wf(),
    ensures
        carries(frame, transport::response_payload(server@.state)),
{
    let response = state::load_response(&server.state);
    if response.len() == 0 {
        return None;
    }
    let id: u16 = can_id::response_id_for_request(request_id);
    match Frame::new_standard(id, response.as_slice()) {
        Ok(frame) => Some(frame),
        Err(_) => None,
    }
}

/// The same as `build_response_frame`.
pub fn build_response_frame_for(server: &UdsServer, request_id: u16) -> (frame: Option<Frame>)
    requires
        server.wf(),
    ensures
        carries(frame, transport::response_payload(server@.state)),
{
    build_response_frame(server, request_id)
}

/// The request that a frame carries.
pub fn parse_request_frame(frame: &Frame) -> (request: &[u8])
    ensures
        request@ == frame.data@,
{
    frame.data.as_slice()
}

/// A response frame has the standard identifier 0x7E8.
pub proof fn law_response_frames(frame: Frame, payload: Option<Seq<u8>>)
    requires
        carries(Some(frame), payload),
    ensures
        frame.id == FrameId::Standard(0x7E8),
        payload == Some(frame.data@),
{
}

} // verus!
