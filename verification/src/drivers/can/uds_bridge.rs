//! The transport adapter that the node uses for diagnostics over CAN FD.

use vstd::prelude::*;

use crate::can::frame::FdFrame;
use crate::can::frame::FrameId;
use crate::uds::transport;
use crate::uds::transport::can_id;
use crate::uds::ServerModel;
use crate::uds::UdsServer;

verus! {

/// SecurityAccess is a service between one client and one node: a request to
/// every node is not heeded.
pub const FUNCTIONAL_BLOCKED_SID: u8 = 0x27;

/// A request that came on the identifier for every node but must not.
pub open spec fn blocked(id: FrameId, data: Seq<u8>) -> bool {
    &&& id == FrameId::Standard(can_id::COB_ID_FUNCTIONAL_REQUEST)
    &&& data.len() > 0
    &&& data[0] == FUNCTIONAL_BLOCKED_SID
}

/// Server and response payload after a frame.
pub open spec fn bridged(m: ServerModel, id: FrameId, data: Seq<u8>, now_ms: u32) -> (
    ServerModel,
    Option<Seq<u8>>,
) {
    if blocked(id, data) {
        (m, None)
    } else {
        transport::received(m, id, data, now_ms)
    }
}

/// Transport adapter. A test can put another one in the place of the
/// default.
pub trait UdsTransport {
    /// Whether a frame is a diagnostic request.
    fn is_uds_frame(&self, frame: &FdFrame) -> (b: bool);

    /// Handles a received frame; the response frame is returned to be sent.
    fn handle_rx_frame(&self, server: &mut UdsServer, frame: &FdFrame, now_ms: u32) -> (response:
        Option<FdFrame>)
        requires
            old(server).wf(),
            frame.data@.len() <= transport::UDS_FRAME_MAX,
        ensures
            final(server).wf(),
    ;
}

/// The adapter for real frames.
pub struct DefaultUdsTransport;

impl UdsTransport for DefaultUdsTransport {
    fn is_uds_frame(&self, frame: &FdFrame) -> (b: bool)
        ensures
            b == transport::is_request(frame.id),
    {
        transport::is_uds_frame(frame)
    }

    fn handle_rx_frame(&self, server: &mut UdsServer, frame: &FdFrame, now_ms: u32) -> (response:
        Option<FdFrame>)
        ensures
            final(server)@ == bridged(old(server)@, frame.id, frame.data@, now_ms).0,
            transport::carries(
                response,
                bridged(old(server)@, frame.id, frame.data@, now_ms).1,
            ),
    {
        let id: u16 = match frame.id {
            FrameId::Standard(id) => id,
            FrameId::Extended(_) => {
                return None;
            },
        };
        if !can_id::is_uds_request_id(id) {
            return None;
        }
        let request = transport::parse_request_frame(frame);
        if request.len() == 0 {
            return None;
        }
        if id == can_id::COB_ID_FUNCTIONAL_REQUEST && request[0] == FUNCTIONAL_BLOCKED_SID {
            return None;
        }
        transport::exchange(server, id, request, now_ms)
    }
}

/// A security request to every node changes nothing and is not answered.
pub proof fn law_security_is_not_broadcast(m: ServerModel, data: Seq<u8>, now_ms: u32)
    requires
        data.len() > 0,
        data[0] == FUNCTIONAL_BLOCKED_SID,
    ensures
        bridged(m, FrameId::Standard(can_id::COB_ID_FUNCTIONAL_REQUEST), data, now_ms) == (
            m,
            None::<Seq<u8>>,
        ),
{
}

/// Every frame but a security request to every node (0x27 on 0x7DF) is handled
/// as a diagnostic request or ignored, as the transport does.
pub proof fn law_other_requests_pass(m: ServerModel, id: FrameId, data: Seq<u8>, now_ms: u32)
    requires
        id != FrameId::Standard(0x7DF) || data.len() == 0 || data[0] != 0x27,
    ensures
        bridged(m, id, data, now_ms) == transport::received(m, id, data, now_ms),
{
}

} // verus!
