//! What the node's services do together, seen from the other end of the bus.

use vstd::prelude::*;

use crate::bytes;
use crate::can::canopen;
use crate::can::canopen::NmtState;
use crate::can::canopen::NodeModel;
use crate::can::canopen::NodeStepModel;
use crate::can::frame;
use crate::can::frame::FrameId;
use crate::can::od;
use crate::can::od::SdoAbort;
use crate::can::sdo;
use crate::can::sdo::RequestModel;
use crate::can::sdo::SdoStepModel;
use crate::can::sdo::ServerModel;
use crate::can::sdo::UploadModel;
use crate::drivers::flash::FlashOutcome;
use crate::ota::StepModel;

verus! {

/// The frame in which a client asks to write one to four bytes.
pub open spec fn download_request(index: u16, sub: u8, data: Seq<u8>) -> Seq<u8> {
    seq![(0x23 + 4 * (4 - data.len())) as u8] + sdo::address(index, sub) + sdo::zero_padded(data, 4)
}

/// The frame in which a client asks to read an entry.
pub open spec fn upload_request(index: u16, sub: u8) -> Seq<u8> {
    seq![0x40u8] + sdo::address(index, sub) + seq![0u8, 0, 0, 0]
}

/// The frame in which a client asks for a segment.
pub open spec fn segment_request(toggle: u8) -> Seq<u8> {
    seq![(0x60 + 0x10 * toggle) as u8, 0, 0, 0, 0, 0, 0, 0]
}

/// The value that a client takes from an expedited response.
pub open spec fn value_of(response: Seq<u8>) -> Seq<u8> {
    response.subrange(4, 4 + 0x90 - response[0])
}

/// The value that a client takes from a segment response.
pub open spec fn segment_of(response: Seq<u8>) -> Seq<u8> {
    response.subrange(1, 8 - (response[0] / 2) % 8)
}

proof fn lemma_address(index: u16, sub: u8)
    ensures
        sdo::address(index, sub).len() == 3,
        bytes::le_u16(sdo::address(index, sub)[0], sdo::address(index, sub)[1]) == index,
        sdo::address(index, sub)[2] == sub,
{
    bytes::lemma_u16_le_round_trip(index);
}

/// The server understands what a client asks to be written.
pub proof fn law_download_request_is_understood(index: u16, sub: u8, data: Seq<u8>)
    requires
        1 <= data.len() <= 4,
    ensures
        sdo::parsed(download_request(index, sub, data)) == Some(
            Ok::<RequestModel, SdoAbort>(RequestModel::Download { index, sub, data }),
        ),
{
    lemma_address(index, sub);
    let frame = download_request(index, sub, data);
    assert(frame.len() == 8);
    assert(frame.subrange(4, 4 + data.len() as int) =~= data);
}

/// The server understands what a client asks to read.
pub proof fn law_upload_request_is_understood(index: u16, sub: u8, toggle: u8)
    requires
        toggle <= 1,
    ensures
        sdo::parsed(upload_request(index, sub)) == Some(
            Ok::<RequestModel, SdoAbort>(RequestModel::Upload { index, sub }),
        ),
        sdo::parsed(segment_request(toggle)) == Some(
            Ok::<RequestModel, SdoAbort>(RequestModel::UploadSegment { toggle }),
        ),
{
    lemma_address(index, sub);
}

/// A client that reads an entry with a value of up to four bytes takes
/// exactly that value from the response.
pub proof fn law_read_delivers_the_entry(s: ServerModel, index: u16, sub: u8, value: Seq<u8>)
    requires
        od::entry(s.od, s.gateway, index, sub) == Ok::<Seq<u8>, SdoAbort>(value),
        1 <= value.len() <= sdo::EXPEDITED_MAX,
    ensures
        s.dispatched(upload_request(index, sub)).0 == s,
        s.dispatched(upload_request(index, sub)).1 matches SdoStepModel::Respond(Some(response))
            && value_of(response) == value,
{
    law_upload_request_is_understood(index, sub, 0);
    let response = sdo::expedited(index, sub, value);
    assert(value_of(response) =~= value);
}

/// A client that reads an entry that cannot be read gets the entry's address
/// and the reason back, and nothing changes.
pub proof fn law_failed_read_is_aborted(s: ServerModel, index: u16, sub: u8, abort: SdoAbort)
    requires
        od::entry(s.od, s.gateway, index, sub) == Err::<Seq<u8>, SdoAbort>(abort),
    ensures
        s.dispatched(upload_request(index, sub)) == (
            s,
            SdoStepModel::Respond(Some(sdo::abort_response(index, sub, abort))),
        ),
{
    law_upload_request_is_understood(index, sub, 0);
}

/// A longer value is announced with its length and handed out whole by the
/// next segment, which says that it is the last; a further segment request
/// is aborted.
pub proof fn law_segments_deliver_the_value(s: ServerModel, index: u16, sub: u8, value: Seq<u8>)
    requires
        sdo::EXPEDITED_MAX < value.len() <= sdo::SEGMENTED_MAX,
    ensures
        ({
            let begun = sdo::upload_response(s.upload, index, sub, value);
            let ready = ServerModel { upload: begun.0, ..s };
            let first = ready.dispatched(segment_request(0));
            let second = first.0.dispatched(segment_request(1));
            &&& begun.1[4] == value.len()
            &&& first.1 matches SdoStepModel::Respond(Some(response)) && segment_of(response)
                == value && response[0] % 2 == 1
            &&& first.0.upload.bytes.len() == 0
            &&& second.1 == SdoStepModel::Respond(
                Some(sdo::abort_response(0, 0, SdoAbort::InvalidCommand)),
            )
        }),
{
    law_upload_request_is_understood(index, sub, 0);
    law_upload_request_is_understood(index, sub, 1);
    lemma_address(index, sub);
    let u = UploadModel::begun(value);
    assert(u.segment() =~= value);
    let response = sdo::segment_response(0, value, true);
    assert(segment_of(response) =~= value);
}

/// A segment request with the wrong toggle bit is aborted, and so is every
/// segment request after it until a new read.
pub proof fn law_wrong_toggle_drops_the_transfer(s: ServerModel, toggle: u8, again: u8)
    requires
        s.upload.wf(),
        toggle <= 1,
        again <= 1,
        toggle != s.upload.toggle,
    ensures
        ({
            let abort = SdoStepModel::Respond(
                Some(sdo::abort_response(0, 0, SdoAbort::InvalidCommand)),
            );
            let first = s.dispatched(segment_request(toggle));
            &&& first.1 == abort
            &&& first.0.dispatched(segment_request(again)).1 == abort
        }),
{
    law_upload_request_is_understood(0, 0, toggle);
    law_upload_request_is_understood(0, 0, again);
}

/// A heartbeat period written over the bus is acknowledged and reads back
/// over the bus as it was written.
pub proof fn law_period_written_is_period_read(s: ServerModel, ms: u16)
    ensures
        ({
            let write = download_request(od::HEARTBEAT_INDEX, 0, bytes::u16_le(ms));
            let written = s.dispatched(write);
            let read = written.0.dispatched(upload_request(od::HEARTBEAT_INDEX, 0));
            &&& written.1 == SdoStepModel::Respond(Some(sdo::download_ok()))
            &&& written.0.od.heartbeat_ms == ms
            &&& read.1 matches SdoStepModel::Respond(Some(response)) && value_of(response)
                == bytes::u16_le(ms)
        }),
{
    let data = bytes::u16_le(ms);
    assert(data.len() == 2);
    law_download_request_is_understood(od::HEARTBEAT_INDEX, 0, data);
    let written = s.dispatched(download_request(od::HEARTBEAT_INDEX, 0, data));
    assert(written == s.downloaded(od::HEARTBEAT_INDEX, 0, data));
    bytes::lemma_u16_le_round_trip(ms);
    assert(written.0.od.heartbeat_ms == ms);
    assert(od::entry(written.0.od, written.0.gateway, od::HEARTBEAT_INDEX, 0) == Ok::<
        Seq<u8>,
        SdoAbort,
    >(data));
    law_read_delivers_the_entry(written.0, od::HEARTBEAT_INDEX, 0, data);
}

/// A diagnostic request of one to four bytes that needs no flash operation is
/// acknowledged, and its response is what a read of the gateway delivers.
pub proof fn law_diagnostic_round_trip(s: ServerModel, request: Seq<u8>)
    requires
        1 <= request.len() <= 4,
        s.gateway.dispatched(s.ota, request).2 is Stored,
        1 <= s.gateway.dispatched(s.ota, request).0.response.len() <= sdo::EXPEDITED_MAX,
    ensures
        ({
            let answered = s.gateway.dispatched(s.ota, request);
            let written = s.dispatched(download_request(od::GATEWAY_INDEX, 0, request));
            let read = written.0.dispatched(upload_request(od::GATEWAY_INDEX, 0));
            &&& written.1 == SdoStepModel::Respond(Some(sdo::download_ok()))
            &&& written.0.gateway == answered.0
            &&& written.0.ota == answered.1
            &&& read.1 matches SdoStepModel::Respond(Some(response)) && value_of(response)
                == answered.0.response
        }),
{
    law_download_request_is_understood(od::GATEWAY_INDEX, 0, request);
    let answered = s.gateway.dispatched(s.ota, request);
    let written = s.dispatched(download_request(od::GATEWAY_INDEX, 0, request));
    assert(written.0.gateway == answered.0);
    law_read_delivers_the_entry(written.0, od::GATEWAY_INDEX, 0, answered.0.response);
}

/// A diagnostic request that waited for the flash controller is acknowledged
/// once it is through, and its response is what a read of the gateway
/// delivers.
pub proof fn law_delayed_response_is_read(s: ServerModel, outcome: FlashOutcome, reply: Seq<u8>)
    requires
        s.ota.resumed(outcome).1 == StepModel::Reply(reply),
        1 <= reply.len() <= sdo::EXPEDITED_MAX,
    ensures
        ({
            let resumed = s.resumed(outcome);
            let read = resumed.0.dispatched(upload_request(od::GATEWAY_INDEX, 0));
            &&& resumed.1 == SdoStepModel::Respond(Some(sdo::download_ok()))
            &&& read.1 matches SdoStepModel::Respond(Some(response)) && value_of(response) == reply
        }),
{
    let resumed = s.resumed(outcome);
    assert(resumed.0.gateway.response == reply);
    law_read_delivers_the_entry(resumed.0, od::GATEWAY_INDEX, 0, reply);
}

/// The state bytes of the heartbeat tell the states apart.
pub proof fn law_heartbeat_bytes_are_distinct(a: NmtState, b: NmtState)
    requires
        a.byte() == b.byte(),
    ensures
        a == b,
{
}

/// Only a command addressed to this node changes the network management
/// state, and only to what it commands.
pub proof fn law_state_follows_commands(n: NodeModel, id: FrameId, data: Seq<u8>)
    requires
        n.received(id, data).0.nmt != n.nmt,
    ensures
        id == FrameId::Standard(canopen::NMT_COB_ID),
        data.len() >= 2,
        data[1] == canopen::NODE_ID,
        canopen::commanded(data[0]) == Some(n.received(id, data).0.nmt),
{
}

/// A command with any other node number, 0 included, changes nothing and is
/// not answered.
pub proof fn law_other_nodes_commands_are_ignored(n: NodeModel, data: Seq<u8>)
    requires
        data.len() >= 2,
        data[1] != canopen::NODE_ID,
    ensures
        n.received(FrameId::Standard(canopen::NMT_COB_ID), data) == (n, NodeStepModel::Nothing),
{
}

/// A stopped node heeds network management only: every other frame changes
/// nothing and is not answered.
pub proof fn law_stopped_node_heeds_management_only(n: NodeModel, id: FrameId, data: Seq<u8>)
    requires
        n.nmt is Stopped,
        id != FrameId::Standard(canopen::NMT_COB_ID),
    ensures
        n.received(id, data) == (n, NodeStepModel::Nothing),
{
}

/// While transmission is switched off nothing of the node's own goes out: no
/// response to a frame, none after a flash operation, and no heartbeat.
/// Otherwise all of it goes out.
pub proof fn law_silenced_node_sends_nothing(
    n: NodeModel,
    id: FrameId,
    data: Seq<u8>,
    outcome: FlashOutcome,
)
    ensures
        frame::sent(n.received(id, data).1.response(), true) is None,
        frame::sent(n.resumed(outcome).1.response(), true) is None,
        frame::sent(n.heartbeat(), true) is None,
        frame::sent(n.received(id, data).1.response(), false) == n.received(id, data).1.response(),
        frame::sent(n.resumed(outcome).1.response(), false) == n.resumed(outcome).1.response(),
        frame::sent(n.heartbeat(), false) == n.heartbeat(),
{
}

/// A frame with any other identifier, extended ones included, changes
/// nothing and is not answered.
pub proof fn law_other_frames_are_dropped(n: NodeModel, id: FrameId, data: Seq<u8>)
    requires
        id != FrameId::Standard(canopen::NMT_COB_ID),
        id != FrameId::Standard(sdo::SDO_RX_COB_ID),
    ensures
        n.received(id, data) == (n, NodeStepModel::Nothing),
{
}

/// A reset that a node accepts, as it does unless it is stopped, is carried
/// out exactly once: with the response to the request that it came with.
pub proof fn law_reset_is_taken_once(n: NodeModel)
    requires
        !(n.nmt is Stopped),
        !n.server.gateway.reset_requested,
        !n.server.ota.reset_requested,
    ensures
        ({
            let request = download_request(od::GATEWAY_INDEX, 0, seq![0x11u8, 0x01]);
            let after = n.received(FrameId::Standard(sdo::SDO_RX_COB_ID), request);
            &&& after.1 == NodeStepModel::Respond { payload: sdo::download_ok(), reset: true }
            &&& !after.0.server.gateway.reset_requested
            &&& !after.0.server.ota.reset_requested
        }),
{
    let inner = seq![0x11u8, 0x01];
    let request = download_request(od::GATEWAY_INDEX, 0, inner);
    law_download_request_is_understood(od::GATEWAY_INDEX, 0, inner);
    assert(request.len() == 8);
    assert(sdo::zero_padded(request, 8) =~= request);
    assert(inner.skip(1) =~= seq![0x01u8]);
}

} // verus!
