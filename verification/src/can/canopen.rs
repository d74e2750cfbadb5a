//! CANopen node: network management, heartbeat and the SDO server behind it.
//!
//! | Identifier | Direction   | Function           |
//! |------------|-------------|--------------------|
//! | 0x000      | master->node | network management |
//! | 0x601      | client->node | SDO request        |
//! | 0x581      | node->client | SDO response       |
//! | 0x701      | node->master | heartbeat, boot-up |
//!
//! The node takes events (a frame, a tick of the heartbeat timer, the
//! outcome of a flash operation) and says what to do about them.

use vstd::prelude::*;

use crate::can::frame;
use crate::can::frame::Frame;
use crate::can::frame::FrameId;
use crate::can::od;
use crate::can::sdo;
use crate::can::sdo::SdoServer;
use crate::can::sdo::SdoStep;
use crate::can::sdo::SdoStepModel;
use crate::can::sdo::ServerModel;
use crate::can::sdo::SDO_RX_COB_ID;
use crate::can::uds;
use crate::can::uds::GatewayModel;
use crate::drivers::flash::FlashOp;
use crate::drivers::flash::FlashOutcome;
use crate::ota;
use crate::ota::OtaModel;

verus! {

/// This node's number on the bus.
pub const NODE_ID: u8 = 1;

/// Identifier of the heartbeat.
pub const HEARTBEAT_COB_ID: u16 = 0x701;

/// Identifier of network management commands.
pub const NMT_COB_ID: u16 = 0x000;

/// Network management state.
#[derive(Copy, Clone, Debug, PartialEq, Eq, Structural)]
pub enum NmtState {
    /// Only reported once, by the boot-up message.
    Booting,
    /// After boot-up.
    PreOperational,
    Operational,
    /// Only network management is heeded.
    Stopped,
}

impl NmtState {
    /// The state byte of the heartbeat.
    pub open spec fn byte(self) -> u8 {
        match self {
            NmtState::Booting => 0x00,
            NmtState::Stopped => 0x04,
            NmtState::Operational => 0x05,
            NmtState::PreOperational => 0x7F,
        }
    }

    pub fn heartbeat_byte(self) -> (b: u8)
        ensures
            b == self.byte(),
    {
        match self {
            NmtState::Booting => 0x00,
            NmtState::Stopped => 0x04,
            NmtState::Operational => 0x05,
            NmtState::PreOperational => 0x7F,
        }
    }
}

/// The state that a command selects, if it selects one.
pub open spec fn commanded(cmd: u8) -> Option<NmtState> {
    if cmd == 0x01 {
        Some(NmtState::Operational)
    } else if cmd == 0x02 {
        Some(NmtState::Stopped)
    } else if cmd == 0x80 {
        Some(NmtState::PreOperational)
    } else {
        None
    }
}

/// The state after a command. `None` leaves it as it is: unknown commands,
/// and the resets 0x81 and 0x82, which the node does not carry out.
pub fn apply_nmt_command(_current: NmtState, cmd: u8) -> (next: Option<NmtState>)
    ensures
        next == commanded(cmd),
{
    match cmd {
        0x01 => Some(NmtState::Operational),
        0x02 => Some(NmtState::Stopped),
        0x80 => Some(NmtState::PreOperational),
        _ => None,
    }
}

/// The heartbeat of a state, and the boot-up message for `Booting`.
pub fn build_heartbeat_frame(state: NmtState) -> (frame: Frame)
    ensures
        frame.id == FrameId::Standard(HEARTBEAT_COB_ID),
        frame.data@ == seq![state.byte()],
{
    Frame::new_standard(HEARTBEAT_COB_ID, &[state.heartbeat_byte()]).unwrap()
}

/// A node that has booted.
pub struct CanopenNode {
    pub nmt: NmtState,
    /// Period that the heartbeat timer runs at.
    pub ticker_ms: u16,
    pub server: SdoServer,
}

/// `CanopenNode` in terms of the model of its server.
#[verifier::ext_equal]
pub struct NodeModel {
    pub nmt: NmtState,
    pub ticker_ms: u16,
    pub server: ServerModel,
}

impl View for CanopenNode {
    type V = NodeModel;

    open spec fn view(&self) -> NodeModel {
        NodeModel { nmt: self.nmt, ticker_ms: self.ticker_ms, server: self.server@ }
    }
}

/// What to do about a frame or a flash outcome.
#[derive(Debug)]
pub enum NodeStep {
    Nothing,
    /// Send the response; afterwards reset if `reset` is set.
    Respond { frame: Frame, reset: bool },
    /// Carry out the operation and hand in its outcome.
    Flash(FlashOp),
}

/// `NodeStep` with the payload of the response.
#[verifier::ext_equal]
pub enum NodeStepModel {
    Nothing,
    Respond { payload: Seq<u8>, reset: bool },
    Flash(FlashOp),
}

impl View for NodeStep {
    type V = NodeStepModel;

    open spec fn view(&self) -> NodeStepModel {
        match self {
            NodeStep::Nothing => NodeStepModel::Nothing,
            NodeStep::Respond { frame, reset } => NodeStepModel::Respond {
                payload: frame.data@,
                reset: *reset,
            },
            NodeStep::Flash(op) => NodeStepModel::Flash(*op),
        }
    }
}

impl NodeStep {
    /// A response goes out on the server's identifier.
    pub open spec fn wf(&self) -> bool {
        match self {
            NodeStep::Respond { frame, .. } => frame.id == FrameId::Standard(sdo::SDO_TX_COB_ID),
            _ => true,
        }
    }
}

impl NodeStepModel {
    /// The payload of the response, if there is one.
    pub open spec fn response(self) -> Option<Seq<u8>> {
        match self {
            NodeStepModel::Respond { payload, .. } => Some(payload),
            _ => None,
        }
    }

    /// Whether the node is to be reset.
    pub open spec fn resets(self) -> bool {
        self matches NodeStepModel::Respond { reset, .. } && reset
    }
}

impl NodeStep {
    /// The frame that goes out: the response, unless transmission is
    /// switched off.
    pub fn outgoing(self, tx_disabled: bool) -> (frame: Option<Frame>)
        ensures
            frame == match self {
                NodeStep::Respond { frame, .. } => frame::sent(Some(frame), tx_disabled),
                _ => None,
            },
            match frame {
                Some(f) => frame::sent(self@.response(), tx_disabled) == Some(f.data@),
                None => frame::sent(self@.response(), tx_disabled) is None,
            },
    {
        match self {
            NodeStep::Respond { frame, .. } => if tx_disabled {
                None
            } else {
                Some(frame)
            },
            _ => None,
        }
    }

    /// Whether the node is to be reset once the response has gone out. A
    /// response that is held back does not put the reset off.
    pub fn resets(&self) -> (b: bool)
        ensures
            b == self@.resets(),
    {
        match self {
            NodeStep::Respond { reset, .. } => *reset,
            _ => false,
        }
    }
}

/// What to do about a tick: the heartbeat to send, if any, and the period to
/// restart the timer with, if it has changed.
#[derive(Debug)]
pub struct TickStep {
    pub frame: Option<Frame>,
    pub rearm_ms: Option<u16>,
}

impl TickStep {
    /// The frame that goes out: the heartbeat, unless transmission is
    /// switched off.
    pub fn outgoing(self, tx_disabled: bool) -> (frame: Option<Frame>)
        ensures
            frame == frame::sent(self.frame, tx_disabled),
    {
        if tx_disabled {
            None
        } else {
            self.frame
        }
    }
}

/// A network management command that this node heeds: one with its own node
/// number. The number 0, which addresses every node, is not for this node.
pub open spec fn heeds(data: Seq<u8>) -> bool {
    data.len() >= 2 && data[1] == NODE_ID
}

impl NodeModel {
    /// The node with what its server did about a request: after a response
    /// the reset requests are collected.
    pub open spec fn answered(self, server: ServerModel, step: SdoStepModel) -> (
        NodeModel,
        NodeStepModel,
    ) {
        match step {
            SdoStepModel::Respond(None) => (
                NodeModel { server, ..self },
                NodeStepModel::Nothing,
            ),
            SdoStepModel::Respond(Some(payload)) => {
                let by_gateway = server.gateway.reset_requested;
                let by_update = !by_gateway && server.ota.reset_requested;
                let collected = ServerModel {
                    gateway: GatewayModel { reset_requested: false, ..server.gateway },
                    ota: if by_update {
                        OtaModel { reset_requested: false, ..server.ota }
                    } else {
                        server.ota
                    },
                    ..server
                };
                (
                    NodeModel { server: collected, ..self },
                    NodeStepModel::Respond { payload, reset: by_gateway || by_update },
                )
            },
            SdoStepModel::Flash(op) => (
                NodeModel { server, ..self },
                NodeStepModel::Flash(op),
            ),
        }
    }

    /// Node and step after a frame.
    pub open spec fn received(self, id: FrameId, data: Seq<u8>) -> (NodeModel, NodeStepModel) {
        if id == FrameId::Standard(NMT_COB_ID) {
            let next = match commanded(data[0]) {
                Some(nmt) if heeds(data) => NodeModel { nmt, ..self },
                _ => self,
            };
            (next, NodeStepModel::Nothing)
        } else if id == FrameId::Standard(SDO_RX_COB_ID) && !(self.nmt is Stopped) {
            let r = self.server.dispatched(sdo::zero_padded(data, 8));
            self.answered(r.0, r.1)
        } else {
            (self, NodeStepModel::Nothing)
        }
    }

    /// Node and step after the outcome of a flash operation.
    pub open spec fn resumed(self, outcome: FlashOutcome) -> (NodeModel, NodeStepModel) {
        let r = self.server.resumed(outcome);
        self.answered(r.0, r.1)
    }

    /// Whether the heartbeat period has changed to one that can be timed.
    pub open spec fn rearms(self) -> bool {
        self.server.od.heartbeat_ms != 0 && self.server.od.heartbeat_ms != self.ticker_ms
    }

    /// The period to restart the timer with, if it has changed.
    pub open spec fn rearm(self) -> Option<u16> {
        if self.rearms() {
            Some(self.server.od.heartbeat_ms)
        } else {
            None
        }
    }

    /// The payload of the heartbeat, unless the period switches it off.
    pub open spec fn heartbeat(self) -> Option<Seq<u8>> {
        if self.server.od.heartbeat_ms == 0 {
            None
        } else {
            Some(seq![self.nmt.byte()])
        }
    }

    /// The node after a tick.
    pub open spec fn ticked(self) -> NodeModel {
        if self.rearms() {
            NodeModel { ticker_ms: self.server.od.heartbeat_ms, ..self }
        } else {
            self
        }
    }
}

impl CanopenNode {
    /// Boots: the node, pre-operational, and the boot-up message to send.
    pub fn boot() -> (r: (CanopenNode, Frame))
        ensures
            r.0.wf(),
            r.0@.server.ota.ready(),
            r.0@.nmt == NmtState::PreOperational,
            r.0@.ticker_ms == od::DEFAULT_HEARTBEAT_MS,
            r.0@.server.od.heartbeat_ms == od::DEFAULT_HEARTBEAT_MS,
            r.0@.server.gateway == GatewayModel::initial(),
            r.0@.server.ota == OtaModel::initial(),
            r.0@.server.upload == sdo::UploadModel::idle(),
            r.1.id == FrameId::Standard(HEARTBEAT_COB_ID),
            r.1.data@ == seq![NmtState::Booting.byte()],
    {
        let server = SdoServer::new();
        let ticker_ms: u16 = od::heartbeat_period_ms(&server.od);
        (
            CanopenNode { nmt: NmtState::PreOperational, ticker_ms, server },
            build_heartbeat_frame(NmtState::Booting),
        )
    }

    pub open spec fn wf(&self) -> bool {
        self.server.wf()
    }

    fn answer(&mut self, step: SdoStep) -> (r: NodeStep)
        requires
            old(self).wf(),
            step.wf(),
        ensures
            (final(self)@, r@) == old(self)@.answered(old(self)@.server, step@),
            final(self).wf(),
            r.wf(),
    {
        match step {
            SdoStep::Respond(None) => NodeStep::Nothing,
            SdoStep::Respond(Some(frame)) => {
                let reset = uds::take_reset_request(&mut self.server.gateway)
                    || ota::take_reset_request(&mut self.server.ota);
                NodeStep::Respond { frame, reset }
            },
            SdoStep::Flash(op) => NodeStep::Flash(op),
        }
    }

    /// Handles a received frame. Frames with other identifiers are dropped,
    /// and so are SDO requests while the node is stopped.
    pub fn on_frame(&mut self, frame: &Frame) -> (step: NodeStep)
        requires
            old(self).wf(),
            old(self)@.server.ota.ready(),
            frame.data@.len() <= 8,
        ensures
            (final(self)@, step@) == old(self)@.received(frame.id, frame.data@),
            final(self).wf(),
            step.wf(),
    {
        if frame.has_standard_id(NMT_COB_ID) {
            let len: usize = frame.data.len();
            if len >= 2 && frame.data[1] == NODE_ID {
                if let Some(next) = apply_nmt_command(self.nmt, frame.data[0]) {
                    self.nmt = next;
                }
            }
            return NodeStep::Nothing;
        }
        if !sdo::is_sdo_request(frame) || self.nmt == NmtState::Stopped {
            return NodeStep::Nothing;
        }
        let mut data: [u8; 8] = [0; 8];
        let mut i: usize = 0;
        while i < frame.data.len()
            invariant
                i <= frame.data@.len() <= 8,
                forall|j: int| 0 <= j < i ==> #[trigger] data@[j] == frame.data@[j],
                forall|j: int| i <= j < 8 ==> #[trigger] data@[j] == 0,
            decreases frame.data.len() - i,
        {
            data[i] = frame.data[i];
            i = i + 1;
        }
        assert(data@ =~= sdo::zero_padded(frame.data@, 8));
        let step = sdo::dispatch(&mut self.server, data.as_slice());
        self.answer(step)
    }

    /// Goes on after a flash operation.
    pub fn on_flash(&mut self, outcome: FlashOutcome) -> (step: NodeStep)
        requires
            old(self).wf(),
            old(self)@.server.ota.expects(outcome),
        ensures
            (final(self)@, step@) == old(self)@.resumed(outcome),
            final(self).wf(),
            step.wf(),
    {
        let step = sdo::resume(&mut self.server, outcome);
        self.answer(step)
    }

    /// Handles a tick of the heartbeat timer. While the period is 0 nothing
    /// is sent and the timer keeps its old period.
    pub fn on_tick(&mut self) -> (step: TickStep)
        requires
            old(self).wf(),
        ensures
            final(self)@ == old(self)@.ticked(),
            final(self).wf(),
            match step.frame {
                None => old(self)@.heartbeat() is None,
                Some(frame) => {
                    &&& frame.id == FrameId::Standard(HEARTBEAT_COB_ID)
                    &&& old(self)@.heartbeat() == Some(frame.data@)
                },
            },
            step.rearm_ms == old(self)@.rearm(),
    {
        let current: u16 = od::heartbeat_period_ms(&self.server.od);
        if current == 0 {
            return TickStep { frame: None, rearm_ms: None };
        }
        let frame = build_heartbeat_frame(self.nmt);
        if current != self.ticker_ms {
            self.ticker_ms = current;
            return TickStep { frame: Some(frame), rearm_ms: Some(current) };
        }
        TickStep { frame: Some(frame), rearm_ms: None }
    }
}

} // verus!
