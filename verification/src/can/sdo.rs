//! SDO server: requests of a client to read and write the object dictionary.
//!
//! ```text
//! download request   0x20 | n << 2 | 0x03, index, sub, 4 - n data bytes
//! download response  0x60
//! upload request     0x40, index, sub
//! upload response    0x8C..0x8F (1 to 4 bytes), index, sub, data
//!                    0x82 (more bytes), index, sub, size
//! segment request    0x60 | toggle << 4
//! segment response   0xA0 | toggle << 4 | n << 1 | last, 7 - n data bytes
//! abort              0x80, index, sub, code
//! ```

use vstd::prelude::*;
use vstd::slice::slice_subrange;
use vstd::slice::slice_to_vec;

use crate::bytes;
use crate::can::frame::Frame;
use crate::can::frame::FrameId;
use crate::can::od;
use crate::can::od::ObjectDictionary;
use crate::can::od::OdValue;
use crate::can::od::OdWrite;
use crate::can::od::SdoAbort;
use crate::can::uds;
use crate::can::uds::GatewayModel;
use crate::can::uds::GatewayStep;
use crate::can::uds::UdsGateway;
use crate::drivers::flash::FlashOp;
use crate::drivers::flash::FlashOutcome;
use crate::ota::Ota;
use crate::ota::OtaModel;

verus! {

/// Identifier of requests to this node.
pub const SDO_RX_COB_ID: u16 = 0x601;

/// Identifier of responses of this node.
pub const SDO_TX_COB_ID: u16 = 0x581;

/// Longest value that fits one response.
pub const EXPEDITED_MAX: usize = 4;

/// Longest value that can be uploaded.
pub const SEGMENTED_MAX: usize = 7;

/// Data bytes of one segment.
pub const SEGMENT_BYTES: usize = 7;

/// Top three bits of the command byte, as a number.
pub const CLASS_DOWNLOAD: u8 = 1;

pub const CLASS_UPLOAD: u8 = 2;

pub const CLASS_UPLOAD_SEGMENT: u8 = 3;

pub const CLASS_ABORT: u8 = 4;

/// A request of the client.
#[derive(Copy, Clone, Debug)]
pub enum SdoRequest {
    /// Write a value.
    Download { index: u16, sub: u8, value: OdValue },
    /// Read a value.
    Upload { index: u16, sub: u8 },
    /// Hand out the next segment of the value being read.
    UploadSegment { toggle: u8 },
}

/// `SdoRequest` with the value as a sequence.
#[verifier::ext_equal]
pub enum RequestModel {
    Download { index: u16, sub: u8, data: Seq<u8> },
    Upload { index: u16, sub: u8 },
    UploadSegment { toggle: u8 },
}

impl View for SdoRequest {
    type V = RequestModel;

    open spec fn view(&self) -> RequestModel {
        match self {
            SdoRequest::Download { index, sub, value } => RequestModel::Download {
                index: *index,
                sub: *sub,
                data: value@,
            },
            SdoRequest::Upload { index, sub } => RequestModel::Upload { index: *index, sub: *sub },
            SdoRequest::UploadSegment { toggle } => RequestModel::UploadSegment { toggle: *toggle },
        }
    }
}

impl SdoRequest {
    pub open spec fn wf(&self) -> bool {
        match self {
            SdoRequest::Download { value, .. } => value.wf(),
            _ => true,
        }
    }
}

/// A value that is being handed out in segments. `buf` is empty when there
/// is none.
pub struct SdoUpload {
    pub buf: Vec<u8>,
    pub offset: usize,
    pub toggle: u8,
}

/// `SdoUpload` with the value as a sequence.
#[verifier::ext_equal]
pub struct UploadModel {
    pub bytes: Seq<u8>,
    pub offset: int,
    pub toggle: u8,
}

impl View for SdoUpload {
    type V = UploadModel;

    open spec fn view(&self) -> UploadModel {
        UploadModel { bytes: self.buf@, offset: self.offset as int, toggle: self.toggle }
    }
}

impl UploadModel {
    pub open spec fn idle() -> UploadModel {
        UploadModel { bytes: Seq::empty(), offset: 0, toggle: 0 }
    }

    pub open spec fn wf(self) -> bool {
        &&& self.bytes.len() <= SEGMENTED_MAX
        &&& self.offset == 0 || 0 <= self.offset < self.bytes.len()
        &&& self.toggle <= 1
    }

    /// Starting to hand out `value`.
    pub open spec fn begun(value: Seq<u8>) -> UploadModel {
        UploadModel { bytes: value, offset: 0, toggle: 0 }
    }

    /// Giving up the value, if any.
    pub open spec fn cleared(self) -> UploadModel {
        UploadModel { bytes: Seq::empty(), offset: 0, ..self }
    }

    /// The next segment.
    pub open spec fn segment(self) -> Seq<u8> {
        if self.bytes.len() - self.offset <= SEGMENT_BYTES {
            self.bytes.skip(self.offset)
        } else {
            self.bytes.subrange(self.offset, self.offset + SEGMENT_BYTES)
        }
    }

    /// Whether the next segment is the last one.
    pub open spec fn at_last(self) -> bool {
        self.bytes.len() - self.offset <= SEGMENT_BYTES
    }

    /// After the next segment has been handed out.
    pub open spec fn advanced(self) -> UploadModel {
        let flipped = UploadModel { toggle: (1 - self.toggle) as u8, ..self };
        if self.at_last() {
            flipped.cleared()
        } else {
            UploadModel { offset: self.offset + SEGMENT_BYTES, ..flipped }
        }
    }
}

/// `s` filled up to `n` bytes with zeros.
pub open spec fn zero_padded(s: Seq<u8>, n: int) -> Seq<u8> {
    s + Seq::new((n - s.len()) as nat, |i: int| 0u8)
}

/// Index and subindex as requests and responses carry them.
pub open spec fn address(index: u16, sub: u8) -> Seq<u8> {
    bytes::u16_le(index).push(sub)
}

pub open spec fn download_ok() -> Seq<u8> {
    seq![0x60u8, 0, 0, 0, 0, 0, 0, 0]
}

/// Response that carries a value of one to four bytes.
pub open spec fn expedited(index: u16, sub: u8, value: Seq<u8>) -> Seq<u8> {
    seq![(0x90 - value.len()) as u8] + address(index, sub) + zero_padded(value, 4)
}

/// Response that announces a longer value.
pub open spec fn announced(index: u16, sub: u8, len: int) -> Seq<u8> {
    seq![0x82u8] + address(index, sub) + seq![len as u8, 0, 0, 0]
}

/// Response that carries a segment.
pub open spec fn segment_response(toggle: u8, segment: Seq<u8>, last: bool) -> Seq<u8> {
    seq![
        (0xA0 + 0x10 * (toggle % 2) + 2 * (7 - segment.len()) + if last {
            1int
        } else {
            0int
        }) as u8,
    ] + zero_padded(segment, 7)
}

pub open spec fn abort_response(index: u16, sub: u8, abort: SdoAbort) -> Seq<u8> {
    seq![0x80u8] + address(index, sub) + bytes::u32_le(abort.number())
}

/// What a request frame asks for. `None` asks for nothing: a frame that is
/// too short, or an abort by the client.
pub open spec fn parsed(data: Seq<u8>) -> Option<Result<RequestModel, SdoAbort>> {
    let cmd = data[0];
    let class = cmd / 0x20;
    let index = bytes::le_u16(data[1], data[2]);
    let sub = data[3];
    if data.len() < 8 {
        None
    } else if class == CLASS_DOWNLOAD {
        if cmd % 4 != 3 {
            Some(Err(SdoAbort::InvalidCommand))
        } else {
            Some(
                Ok(
                    RequestModel::Download {
                        index,
                        sub,
                        data: data.subrange(4, 8 - (cmd / 4) % 4),
                    },
                ),
            )
        }
    } else if class == CLASS_UPLOAD {
        Some(Ok(RequestModel::Upload { index, sub }))
    } else if class == CLASS_UPLOAD_SEGMENT {
        Some(Ok(RequestModel::UploadSegment { toggle: (cmd / 0x10) % 2 }))
    } else if class == CLASS_ABORT {
        None
    } else {
        Some(Err(SdoAbort::InvalidCommand))
    }
}

/// An abort by the client drops the value being handed out.
pub open spec fn after_parsing(u: UploadModel, data: Seq<u8>) -> UploadModel {
    if data.len() >= 8 && data[0] / 0x20 == CLASS_ABORT {
        u.cleared()
    } else {
        u
    }
}

/// Upload state and response payload for a value that is read.
pub open spec fn upload_response(u: UploadModel, index: u16, sub: u8, value: Seq<u8>) -> (
    UploadModel,
    Seq<u8>,
) {
    if value.len() <= EXPEDITED_MAX {
        (u, expedited(index, sub, value))
    } else {
        (UploadModel::begun(value), announced(index, sub, value.len() as int))
    }
}

/// Upload state and response payload for the next segment.
pub open spec fn upload_segment_response(u: UploadModel, toggle: u8) -> (UploadModel, Seq<u8>) {
    if u.bytes.len() == 0 {
        (u, abort_response(0, 0, SdoAbort::InvalidCommand))
    } else {
        (u.advanced(), segment_response(toggle, u.segment(), u.at_last()))
    }
}

impl SdoUpload {
    pub fn new() -> (u: SdoUpload)
        ensures
            u@ == UploadModel::idle(),
            u@.wf(),
    {
        SdoUpload { buf: Vec::new(), offset: 0, toggle: 0 }
    }

    fn segmented_upload_begin(&mut self, value: &[u8])
        ensures
            final(self)@ == UploadModel::begun(value@),
    {
        self.buf = slice_to_vec(value);
        self.offset = 0;
        self.toggle = 0;
    }

    fn clear(&mut self)
        ensures
            final(self)@ == old(self)@.cleared(),
    {
        self.buf = Vec::new();
        self.offset = 0;
    }

    /// The next segment and whether it is the last, or `None` when nothing
    /// is being handed out.
    fn segmented_upload_next(&mut self) -> (r: Option<(Vec<u8>, bool)>)
        requires
            old(self)@.wf(),
        ensures
            match r {
                None => old(self)@.bytes.len() == 0 && final(self)@ == old(self)@,
                Some(segment) => {
                    &&& old(self)@.bytes.len() > 0
                    &&& segment.0@ == old(self)@.segment()
                    &&& segment.1 == old(self)@.at_last()
                    &&& final(self)@ == old(self)@.advanced()
                },
            },
    {
        let len: usize = self.buf.len();
        if len == 0 {
            return None;
        }
        let offset: usize = self.offset;
        let chunk: usize = if len - offset <= SEGMENT_BYTES { len - offset } else { SEGMENT_BYTES };
        let segment = slice_to_vec(slice_subrange(self.buf.as_slice(), offset, offset + chunk));
        assert(segment@ =~= self@.segment());
        let last = offset + chunk == len;
        self.offset = offset + chunk;
        if last {
            self.clear();
        }
        self.toggle = 1 - self.toggle;
        Some((segment, last))
    }
}

/// Reads a request out of the eight bytes of a frame. An abort by the client
/// drops the value being handed out.
pub fn parse_request(upload: &mut SdoUpload, data: &[u8]) -> (r: Option<
    Result<SdoRequest, SdoAbort>,
>)
    ensures
        final(upload)@ == after_parsing(old(upload)@, data@),
        match r {
            None => parsed(data@) is None,
            Some(Ok(request)) => parsed(data@) == Some(
                Ok::<RequestModel, SdoAbort>(request@),
            ) && request.wf(),
            Some(Err(abort)) => parsed(data@) == Some(Err::<RequestModel, SdoAbort>(abort)),
        },
{
    if data.len() < 8 {
        return None;
    }
    let cmd: u8 = data[0];
    let index: u16 = bytes::u16_from_le(data[1], data[2]);
    let sub: u8 = data[3];
    match cmd / 0x20 {
        CLASS_DOWNLOAD => {
            if cmd % 4 != 3 {
                return Some(Err(SdoAbort::InvalidCommand));
            }
            let unused: usize = ((cmd / 4) % 4) as usize;
            let value = OdValue::from_slice(slice_subrange(data, 4, 8 - unused));
            Some(Ok(SdoRequest::Download { index, sub, value }))
        },
        CLASS_UPLOAD => Some(Ok(SdoRequest::Upload { index, sub })),
        CLASS_UPLOAD_SEGMENT => {
            let toggle: u8 = (cmd / 0x10) % 2;
            Some(Ok(SdoRequest::UploadSegment { toggle }))
        },
        CLASS_ABORT => {
            upload.clear();
            None
        },
        _ => Some(Err(SdoAbort::InvalidCommand)),
    }
}

/// A response frame with the given payload.
fn response_frame(payload: [u8; 8]) -> (frame: Frame)
    ensures
        frame.id == FrameId::Standard(SDO_TX_COB_ID),
        frame.data@ == payload@,
{
    Frame::new_standard(SDO_TX_COB_ID, payload.as_slice()).unwrap()
}

/// The response to a write that was carried out.
pub fn build_download_ok_response() -> (frame: Frame)
    ensures
        frame.id == FrameId::Standard(SDO_TX_COB_ID),
        frame.data@ == download_ok(),
{
    response_frame([0x60, 0, 0, 0, 0, 0, 0, 0])
}

/// The response to a read. Values of up to four bytes are in it, longer ones
/// are announced and follow in segments.
pub fn build_upload_response(upload: &mut SdoUpload, index: u16, sub: u8, value: OdValue) -> (frame:
    Frame)
    requires
        1 <= value.len <= od::VALUE_MAX,
    ensures
        frame.id == FrameId::Standard(SDO_TX_COB_ID),
        (final(upload)@, frame.data@) == upload_response(old(upload)@, index, sub, value@),
        old(upload)@.wf() ==> final(upload)@.wf(),
{
    let at = bytes::u16_to_le(index);
    if value.len as usize <= EXPEDITED_MAX {
        let b = value.bytes;
        let b1: u8 = if value.len > 1 { b[1] } else { 0 };
        let b2: u8 = if value.len > 2 { b[2] } else { 0 };
        let b3: u8 = if value.len > 3 { b[3] } else { 0 };
        let payload: [u8; 8] = [0x90 - value.len, at[0], at[1], sub, b[0], b1, b2, b3];
        assert(payload@ =~= expedited(index, sub, value@));
        response_frame(payload)
    } else {
        let payload: [u8; 8] = [0x82, at[0], at[1], sub, value.len, 0, 0, 0];
        assert(payload@ =~= announced(index, sub, value@.len() as int));
        let all = slice_subrange(value.bytes.as_slice(), 0, value.len as usize);
        assert(all@ =~= value@);
        upload.segmented_upload_begin(all);
        response_frame(payload)
    }
}

/// The response to a segment request: the next segment, with the toggle bit
/// of the request, or an abort when nothing is being handed out.
pub fn build_upload_segment_response(upload: &mut SdoUpload, toggle: u8) -> (frame: Frame)
    requires
        old(upload)@.wf(),
    ensures
        frame.id == FrameId::Standard(SDO_TX_COB_ID),
        (final(upload)@, frame.data@) == upload_segment_response(old(upload)@, toggle),
        final(upload)@.wf(),
{
    let ghost before = upload@;
    match upload.segmented_upload_next() {
        None => build_abort_response(0, 0, SdoAbort::InvalidCommand),
        Some((segment, last)) => {
            let chunk: usize = segment.len();
            let value = OdValue::from_slice(segment.as_slice());
            let b = value.bytes;
            let unused: u8 = (7 - chunk) as u8;
            let end: u8 = if last { 1 } else { 0 };
            let cmd: u8 = 0xA0 + 0x10 * (toggle % 2) + 2 * unused + end;
            let payload: [u8; 8] = [cmd, b[0], b[1], b[2], b[3], b[4], b[5], b[6]];
            proof {
                assert(segment@ =~= value@);
                assert forall|i: int| 0 <= i < 7 implies #[trigger] zero_padded(segment@, 7)[i]
                    == b@[i] by {
                    if i < chunk {
                        assert(value@[i] == b@[i]);
                    }
                }
                assert(payload@ =~= segment_response(toggle, segment@, last));
            }
            response_frame(payload)
        },
    }
}

/// An abort of the transfer of an entry.
pub fn build_abort_response(index: u16, sub: u8, code: SdoAbort) -> (frame: Frame)
    ensures
        frame.id == FrameId::Standard(SDO_TX_COB_ID),
        frame.data@ == abort_response(index, sub, code),
{
    let at = bytes::u16_to_le(index);
    let c = bytes::u32_to_le(code.code());
    let payload: [u8; 8] = [0x80, at[0], at[1], sub, c[0], c[1], c[2], c[3]];
    assert(payload@ =~= abort_response(index, sub, code));
    response_frame(payload)
}

/// Whether a frame is a request to this node's SDO server.
pub fn is_sdo_request(frame: &Frame) -> (b: bool)
    ensures
        b == (frame.id == FrameId::Standard(SDO_RX_COB_ID)),
{
    frame.has_standard_id(SDO_RX_COB_ID)
}

/// The server with all that its requests can reach.
pub struct SdoServer {
    pub upload: SdoUpload,
    pub od: ObjectDictionary,
    pub gateway: UdsGateway,
    pub ota: Ota,
}

/// `SdoServer` in terms of the models of its parts.
#[verifier::ext_equal]
pub struct ServerModel {
    pub upload: UploadModel,
    pub od: ObjectDictionary,
    pub gateway: GatewayModel,
    pub ota: OtaModel,
}

impl View for SdoServer {
    type V = ServerModel;

    open spec fn view(&self) -> ServerModel {
        ServerModel {
            upload: self.upload@,
            od: self.od,
            gateway: self.gateway@,
            ota: self.ota@,
        }
    }
}

/// What a request ends with: a response or silence, or work for the flash
/// controller after which the request goes on.
#[derive(Debug)]
pub enum SdoStep {
    Respond(Option<Frame>),
    Flash(FlashOp),
}

/// `SdoStep` with the payload of the response.
#[verifier::ext_equal]
pub enum SdoStepModel {
    Respond(Option<Seq<u8>>),
    Flash(FlashOp),
}

impl View for SdoStep {
    type V = SdoStepModel;

    open spec fn view(&self) -> SdoStepModel {
        match self {
            SdoStep::Respond(None) => SdoStepModel::Respond(None),
            SdoStep::Respond(Some(frame)) => SdoStepModel::Respond(Some(frame.data@)),
            SdoStep::Flash(op) => SdoStepModel::Flash(*op),
        }
    }
}

impl SdoStep {
    /// A response goes out on the server's identifier.
    pub open spec fn wf(&self) -> bool {
        match self {
            SdoStep::Respond(Some(frame)) => frame.id == FrameId::Standard(SDO_TX_COB_ID),
            _ => true,
        }
    }
}

impl ServerModel {
    /// Server and step after a write request.
    pub open spec fn downloaded(self, index: u16, sub: u8, data: Seq<u8>) -> (
        ServerModel,
        SdoStepModel,
    ) {
        let w = od::written(self.od, self.gateway, self.ota, index, sub, data);
        let after = ServerModel { od: w.0, gateway: w.1, ota: w.2, ..self };
        match w.3 {
            Ok(OdWrite::Done) => (after, SdoStepModel::Respond(Some(download_ok()))),
            Ok(OdWrite::Flash(op)) => (after, SdoStepModel::Flash(op)),
            Err(abort) => (after, SdoStepModel::Respond(Some(abort_response(index, sub, abort)))),
        }
    }

    /// Server and step after a read request. An entry without any bytes is
    /// answered with silence.
    pub open spec fn uploaded(self, index: u16, sub: u8) -> (ServerModel, SdoStepModel) {
        match od::entry(self.od, self.gateway, index, sub) {
            Ok(value) => if value.len() == 0 {
                (self, SdoStepModel::Respond(None))
            } else {
                let r = upload_response(self.upload, index, sub, value);
                (ServerModel { upload: r.0, ..self }, SdoStepModel::Respond(Some(r.1)))
            },
            Err(abort) => (self, SdoStepModel::Respond(Some(abort_response(index, sub, abort)))),
        }
    }

    /// Server and step after a segment request. The wrong toggle bit drops
    /// the value being handed out.
    pub open spec fn segment_uploaded(self, toggle: u8) -> (ServerModel, SdoStepModel) {
        if toggle != self.upload.toggle {
            (
                ServerModel { upload: self.upload.cleared(), ..self },
                SdoStepModel::Respond(Some(abort_response(0, 0, SdoAbort::InvalidCommand))),
            )
        } else {
            let r = upload_segment_response(self.upload, toggle);
            (ServerModel { upload: r.0, ..self }, SdoStepModel::Respond(Some(r.1)))
        }
    }

    /// Server and step after a request frame.
    pub open spec fn dispatched(self, data: Seq<u8>) -> (ServerModel, SdoStepModel) {
        match parsed(data) {
            None => (
                ServerModel { upload: after_parsing(self.upload, data), ..self },
                SdoStepModel::Respond(None),
            ),
            Some(Err(abort)) => (
                self,
                SdoStepModel::Respond(Some(abort_response(0, 0, abort))),
            ),
            Some(Ok(RequestModel::Download { index, sub, data })) => self.downloaded(
                index,
                sub,
                data,
            ),
            Some(Ok(RequestModel::Upload { index, sub })) => self.uploaded(index, sub),
            Some(Ok(RequestModel::UploadSegment { toggle })) => self.segment_uploaded(toggle),
        }
    }

    /// Server and step after the flash operation of a write request.
    pub open spec fn resumed(self, outcome: FlashOutcome) -> (ServerModel, SdoStepModel) {
        let o = self.ota.resumed(outcome);
        let g = self.gateway.updated(o.1);
        let after = ServerModel { gateway: g.0, ota: o.0, ..self };
        match g.1 {
            GatewayStep::Stored(_) => (after, SdoStepModel::Respond(Some(download_ok()))),
            GatewayStep::Flash(op) => (after, SdoStepModel::Flash(op)),
        }
    }
}

impl SdoServer {
    pub fn new() -> (s: SdoServer)
        ensures
            s.wf(),
            s@.ota.ready(),
            s@ == (ServerModel {
                upload: UploadModel::idle(),
                od: ObjectDictionary { heartbeat_ms: od::DEFAULT_HEARTBEAT_MS },
                gateway: GatewayModel::initial(),
                ota: OtaModel::initial(),
            }),
    {
        SdoServer {
            upload: SdoUpload::new(),
            od: ObjectDictionary::new(),
            gateway: UdsGateway::new(),
            ota: Ota::new(),
        }
    }

    pub open spec fn wf(&self) -> bool {
        &&& self.upload@.wf()
        &&& self.gateway@.wf()
        &&& self.ota.wf()
    }
}

/// Handles one request frame. A diagnostic request that needs the flash
/// controller stops there; `resume` goes on.
pub fn dispatch(server: &mut SdoServer, data: &[u8]) -> (step: SdoStep)
    requires
        old(server).wf(),
        old(server)@.ota.ready(),
    ensures
        (final(server)@, step@) == old(server)@.dispatched(data@),
        final(server).wf(),
        step.wf(),
{
    match parse_request(&mut server.upload, data) {
        None => SdoStep::Respond(None),
        Some(Err(abort)) => SdoStep::Respond(Some(build_abort_response(0, 0, abort))),
        Some(Ok(SdoRequest::Download { index, sub, value })) => {
            match od::write(
                &mut server.od,
                &mut server.gateway,
                &mut server.ota,
                index,
                sub,
                value,
            ) {
                Ok(OdWrite::Done) => SdoStep::Respond(Some(build_download_ok_response())),
                Ok(OdWrite::Flash(op)) => SdoStep::Flash(op),
                Err(abort) => SdoStep::Respond(Some(build_abort_response(index, sub, abort))),
            }
        },
        Some(Ok(SdoRequest::Upload { index, sub })) => {
            match od::read(&server.od, &server.gateway, index, sub) {
                Ok(value) => {
                    if value.len == 0 {
                        return SdoStep::Respond(None);
                    }
                    SdoStep::Respond(
                        Some(build_upload_response(&mut server.upload, index, sub, value)),
                    )
                },
                Err(abort) => SdoStep::Respond(Some(build_abort_response(index, sub, abort))),
            }
        },
        Some(Ok(SdoRequest::UploadSegment { toggle })) => {
            if toggle != server.upload.toggle {
                server.upload.clear();
                return SdoStep::Respond(
                    Some(build_abort_response(0, 0, SdoAbort::InvalidCommand)),
                );
            }
            SdoStep::Respond(Some(build_upload_segment_response(&mut server.upload, toggle)))
        },
    }
}

/// Goes on with a write request after its flash operation.
pub fn resume(server: &mut SdoServer, outcome: FlashOutcome) -> (step: SdoStep)
    requires
        old(server).wf(),
        old(server)@.ota.expects(outcome),
    ensures
        (final(server)@, step@) == old(server)@.resumed(outcome),
        final(server).wf(),
        step.wf(),
{
    match uds::resume(&mut server.gateway, &mut server.ota, outcome) {
        GatewayStep::Stored(_) => SdoStep::Respond(Some(build_download_ok_response())),
        GatewayStep::Flash(op) => SdoStep::Flash(op),
    }
}

} // verus!
