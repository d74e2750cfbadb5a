//! What the node and its services do, byte by byte.

use vstd::prelude::*;

use crate::bytes;
use crate::can::canopen;
use crate::can::canopen::NmtState;
use crate::can::canopen::NodeModel;
use crate::can::canopen::NodeStepModel;
use crate::can::frame::Frame;
use crate::can::frame::FrameId;
use crate::can::od;
use crate::can::od::ObjectDictionary;
use crate::can::od::SdoAbort;
use crate::can::sdo;
use crate::can::sdo::RequestModel;
use crate::can::sdo::SdoStepModel;
use crate::can::sdo::ServerModel;
use crate::can::sdo::UploadModel;
use crate::can::uds;
use crate::can::uds::GatewayModel;
use crate::can::uds::GatewayStep;
use crate::drivers::flash::FlashOp;
use crate::drivers::flash::FlashOutcome;
use crate::ota::OtaModel;
use crate::ota::StepModel;

verus! {

/// A frame on 0x000 with this node's number, 1, in its second byte selects the
/// state by its first: 0x01 operational, 0x02 stopped, 0x80 pre-operational,
/// whatever the state was. Every other frame on 0x000 changes nothing, and none
/// is answered.
pub proof fn law_commands_select_the_state(n: NodeModel, data: Seq<u8>)
    ensures
        n.received(FrameId::Standard(0x000), data).1 == NodeStepModel::Nothing,
        n.received(FrameId::Standard(0x000), data).0 == if data.len() >= 2 && data[1] == 1
            && data[0] == 0x01 {
            NodeModel { nmt: NmtState::Operational, ..n }
        } else if data.len() >= 2 && data[1] == 1 && data[0] == 0x02 {
            NodeModel { nmt: NmtState::Stopped, ..n }
        } else if data.len() >= 2 && data[1] == 1 && data[0] == 0x80 {
            NodeModel { nmt: NmtState::PreOperational, ..n }
        } else {
            n
        },
{
}

/// A command byte selects a state exactly if it is 0x01, 0x02 or 0x80.
pub proof fn law_command_bytes(cmd: u8)
    ensures
        canopen::commanded(cmd) is Some <==> cmd == 0x01 || cmd == 0x02 || cmd == 0x80,
        cmd == 0x01 ==> canopen::commanded(cmd)->0 is Operational,
        cmd == 0x02 ==> canopen::commanded(cmd)->0 is Stopped,
        cmd == 0x80 ==> canopen::commanded(cmd)->0 is PreOperational,
{
}

/// The byte that a heartbeat reports for a state.
pub open spec fn reported(nmt: NmtState) -> u8 {
    match nmt {
        NmtState::Booting => 0x00,
        NmtState::Stopped => 0x04,
        NmtState::Operational => 0x05,
        NmtState::PreOperational => 0x7F,
    }
}

/// While the period is not 0, the heartbeat is one byte: 0x00, 0x04, 0x05 or
/// 0x7F as the node is booting, stopped, operational or pre-operational. With
/// the period 0 there is none.
pub proof fn law_heartbeat_reports_the_state(n: NodeModel)
    ensures
        n.server.od.heartbeat_ms == 0 <==> n.heartbeat() is None,
        n.heartbeat() matches Some(payload) ==> payload.len() == 1 && payload[0] == reported(n.nmt),
        NmtState::Booting.byte() == 0x00,
{
}

/// Two nodes whose heartbeats are the same are in the same state.
pub proof fn law_heartbeats_tell_states_apart(a: NodeModel, b: NodeModel)
    requires
        a.heartbeat() is Some,
        a.heartbeat() == b.heartbeat(),
    ensures
        a.nmt == b.nmt,
{
    law_heartbeat_reports_the_state(a);
    law_heartbeat_reports_the_state(b);
    assert(a.heartbeat()->0[0] == b.heartbeat()->0[0]);
}

/// The master sees its command in the next heartbeat.
pub proof fn law_command_shows_in_the_heartbeat(n: NodeModel, cmd: u8)
    requires
        n.server.od.heartbeat_ms != 0,
        cmd == 0x01 || cmd == 0x02 || cmd == 0x80,
    ensures
        n.received(FrameId::Standard(0x000), seq![cmd, 1u8]).0.heartbeat() == Some(
            seq![
                if cmd == 0x01 {
                    0x05u8
                } else if cmd == 0x02 {
                    0x04
                } else {
                    0x7F
                },
            ],
        ),
{
    law_commands_select_the_state(n, seq![cmd, 1u8]);
}

/// A tick takes over a new heartbeat period unless it is 0, once, and changes
/// nothing else.
pub proof fn law_tick_takes_the_period_over(n: NodeModel)
    ensures
        n.ticked() == (NodeModel {
            ticker_ms: if n.server.od.heartbeat_ms == 0 {
                n.ticker_ms
            } else {
                n.server.od.heartbeat_ms
            },
            ..n
        }),
        n.rearms() <==> n.ticked().ticker_ms != n.ticker_ms,
        !n.ticked().rearms(),
{
}

/// The abort of an entry: 0x80, its address, and the code, least significant
/// byte first.
pub open spec fn aborting(lo: u8, hi: u8, sub: u8, c0: u8, c1: u8, c2: u8, c3: u8) -> SdoStepModel {
    SdoStepModel::Respond(Some(seq![0x80u8, lo, hi, sub, c0, c1, c2, c3]))
}

proof fn lemma_abort(index: u16, lo: u8, hi: u8, sub: u8)
    requires
        index == lo + 0x100 * hi,
    ensures
        sdo::abort_response(index, sub, SdoAbort::NotExist) == seq![0x80u8, lo, hi, sub, 0, 0, 2, 6],
        sdo::abort_response(index, sub, SdoAbort::NoSubindex) == seq![
            0x80u8,
            lo,
            hi,
            sub,
            0x43,
            0,
            4,
            6,
        ],
        sdo::abort_response(index, sub, SdoAbort::ReadOnly) == seq![0x80u8, lo, hi, sub, 2, 0, 1, 6],
        sdo::abort_response(index, sub, SdoAbort::LengthMismatch) == seq![
            0x80u8,
            lo,
            hi,
            sub,
            0x10,
            0,
            7,
            6,
        ],
        sdo::abort_response(index, sub, SdoAbort::InvalidCommand) == seq![
            0x80u8,
            lo,
            hi,
            sub,
            1,
            0,
            4,
            5,
        ],
{
    assert(bytes::u16_le(index) =~= seq![lo, hi]);
    assert(bytes::u32_le(0x0602_0000) =~= seq![0u8, 0, 2, 6]);
    assert(bytes::u32_le(0x0604_0043) =~= seq![0x43u8, 0, 4, 6]);
    assert(bytes::u32_le(0x0601_0002) =~= seq![2u8, 0, 1, 6]);
    assert(bytes::u32_le(0x0607_0010) =~= seq![0x10u8, 0, 7, 6]);
    assert(bytes::u32_le(0x0504_0001) =~= seq![1u8, 0, 4, 5]);
    assert(sdo::abort_response(index, sub, SdoAbort::NotExist) =~= seq![
        0x80u8,
        lo,
        hi,
        sub,
        0,
        0,
        2,
        6,
    ]);
    assert(sdo::abort_response(index, sub, SdoAbort::NoSubindex) =~= seq![
        0x80u8,
        lo,
        hi,
        sub,
        0x43,
        0,
        4,
        6,
    ]);
    assert(sdo::abort_response(index, sub, SdoAbort::ReadOnly) =~= seq![
        0x80u8,
        lo,
        hi,
        sub,
        2,
        0,
        1,
        6,
    ]);
    assert(sdo::abort_response(index, sub, SdoAbort::LengthMismatch) =~= seq![
        0x80u8,
        lo,
        hi,
        sub,
        0x10,
        0,
        7,
        6,
    ]);
    assert(sdo::abort_response(index, sub, SdoAbort::InvalidCommand) =~= seq![
        0x80u8,
        lo,
        hi,
        sub,
        1,
        0,
        4,
        5,
    ]);
}

/// The bytes of the dictionary entries that can be read, by index and
/// subindex; the diagnostic gateway apart.
pub open spec fn fixed_entry(od: ObjectDictionary, index: int, sub: int) -> Option<Seq<u8>> {
    if index == 0x1000 && sub == 0 {
        Some(seq![0u8, 0, 0, 0])
    } else if index == 0x1001 && sub == 0 {
        Some(seq![0u8])
    } else if index == 0x1017 && sub == 0 {
        Some(seq![(od.heartbeat_ms % 0x100) as u8, (od.heartbeat_ms / 0x100) as u8])
    } else if index == 0x1018 && sub == 1 {
        Some(seq![0xFEu8, 0xCA, 0, 0])
    } else if index == 0x1018 && sub == 2 {
        Some(seq![0xB0u8, 0, 0, 0])
    } else if index == 0x1018 && sub == 3 {
        Some(seq![1u8, 0, 0, 0])
    } else if index == 0x1018 && sub == 4 {
        Some(seq![0u8, 0, 0, 0])
    } else {
        None
    }
}

/// The frame that answers a read with one to four bytes: 0x8F, 0x8E, 0x8D or
/// 0x8C, the address, the bytes, and zeros.
pub open spec fn read_answer(lo: u8, hi: u8, sub: u8, value: Seq<u8>) -> Seq<u8> {
    seq![
        (0x90 - value.len()) as u8,
        lo,
        hi,
        sub,
        value[0],
        if value.len() > 1 {
            value[1]
        } else {
            0u8
        },
        if value.len() > 2 {
            value[2]
        } else {
            0u8
        },
        if value.len() > 3 {
            value[3]
        } else {
            0u8
        },
    ]
}

/// A read of the dictionary (command 0x40 to 0x5F) delivers the entry and
/// changes nothing. What is not there is aborted: 0x0604_0043 for a subindex of
/// 0x1018 above 4, 0x0602_0000 otherwise. The gateway delivers the first four
/// bytes of its response, and says nothing while it has none.
#[verifier::rlimit(30)]
pub proof fn law_dictionary_reads(s: ServerModel, data: Seq<u8>)
    requires
        data.len() >= 8,
        0x40 <= data[0] <= 0x5F,
    ensures
        s.dispatched(data).0 == s,
        ({
            let (lo, hi, sub) = (data[1], data[2], data[3]);
            let index = lo + 0x100 * hi;
            let response = s.gateway.response;
            s.dispatched(data).1 == match fixed_entry(s.od, index, sub as int) {
                Some(value) => SdoStepModel::Respond(Some(read_answer(lo, hi, sub, value))),
                None => if index == 0x2F00 && sub == 0 {
                    SdoStepModel::Respond(
                        if response.len() == 0 {
                            None
                        } else if response.len() <= 4 {
                            Some(read_answer(lo, hi, sub, response))
                        } else {
                            Some(read_answer(lo, hi, sub, response.take(4)))
                        },
                    )
                } else if index == 0x1018 && sub > 4 {
                    aborting(lo, hi, sub, 0x43, 0x00, 0x04, 0x06)
                } else {
                    aborting(lo, hi, sub, 0x00, 0x00, 0x02, 0x06)
                },
            }
        }),
{
    let (lo, hi, sub) = (data[1], data[2], data[3]);
    let index = bytes::le_u16(lo, hi);
    assert(sdo::parsed(data) == Some(
        Ok::<RequestModel, SdoAbort>(RequestModel::Upload { index, sub }),
    ));
    lemma_abort(index, lo, hi, sub);
    match od::entry(s.od, s.gateway, index, sub) {
        Ok(value) => {
            assert(value.len() <= 4);
            match fixed_entry(s.od, index as int, sub as int) {
                Some(v) => {
                    assert(value =~= v);
                },
                None => {},
            }
            if value.len() > 0 {
                lemma_read_answer(index, lo, hi, sub, value);
            }
        },
        Err(_) => {},
    }
}

proof fn lemma_read_answer(index: u16, lo: u8, hi: u8, sub: u8, value: Seq<u8>)
    requires
        index == lo + 0x100 * hi,
        1 <= value.len() <= 4,
    ensures
        sdo::expedited(index, sub, value) == read_answer(lo, hi, sub, value),
{
    assert(bytes::u16_le(index) =~= seq![lo, hi]);
    assert(sdo::expedited(index, sub, value) =~= read_answer(lo, hi, sub, value));
}

/// A write to the dictionary (command 0x23, 0x27, 0x2B or 0x2F, for four to one
/// bytes; 0x10 more is the same). The heartbeat period takes two bytes, least
/// significant first; the gateway takes a diagnostic request. Everything else is
/// aborted and changes nothing: 0x0607_0010 for another length of the period,
/// 0x0601_0002 for the read-only objects, 0x0602_0000 for what is not there,
/// 0x0504_0001 for other commands of the class.
#[verifier::rlimit(30)]
pub proof fn law_dictionary_writes(s: ServerModel, data: Seq<u8>)
    requires
        data.len() >= 8,
        0x20 <= data[0] <= 0x3F,
    ensures
        ({
            let (lo, hi, sub) = (data[1], data[2], data[3]);
            let index = lo + 0x100 * hi;
            let len = 4 - (data[0] / 4) % 4;
            let after = s.dispatched(data);
            if data[0] % 4 != 3 {
                after == (s, aborting(0, 0, 0, 0x01, 0x00, 0x04, 0x05))
            } else if index == 0x1017 && sub == 0 && len == 2 {
                &&& after.1 == SdoStepModel::Respond(Some(seq![0x60u8, 0, 0, 0, 0, 0, 0, 0]))
                &&& after.0 == (ServerModel {
                    od: ObjectDictionary { heartbeat_ms: (data[4] + 0x100 * data[5]) as u16 },
                    ..s
                })
            } else if index == 0x1017 && sub == 0 {
                after == (s, aborting(lo, hi, sub, 0x10, 0x00, 0x07, 0x06))
            } else if index == 0x2F00 && sub == 0 {
                let g = s.gateway.dispatched(s.ota, data.subrange(4, 4 + len));
                &&& after.0 == (ServerModel { gateway: g.0, ota: g.1, ..s })
                &&& after.1 == match g.2 {
                    GatewayStep::Stored(_) => SdoStepModel::Respond(
                        Some(seq![0x60u8, 0, 0, 0, 0, 0, 0, 0]),
                    ),
                    GatewayStep::Flash(op) => SdoStepModel::Flash(op),
                }
            } else if index == 0x1000 || index == 0x1001 || index == 0x1018 {
                after == (s, aborting(lo, hi, sub, 0x02, 0x00, 0x01, 0x06))
            } else {
                after == (s, aborting(lo, hi, sub, 0x00, 0x00, 0x02, 0x06))
            }
        }),
{
    let (lo, hi, sub) = (data[1], data[2], data[3]);
    let index = bytes::le_u16(lo, hi);
    let len = 4 - (data[0] / 4) % 4;
    lemma_abort(0, 0, 0, 0);
    lemma_abort(index, lo, hi, sub);
    if data[0] % 4 == 3 {
        let value = data.subrange(4, 4 + len);
        assert(sdo::parsed(data) == Some(
            Ok::<RequestModel, SdoAbort>(RequestModel::Download { index, sub, data: value }),
        ));
        assert(s.dispatched(data) == s.downloaded(index, sub, value));
        assert(value.len() == len);
        if len >= 2 {
            assert(value[0] == data[4] && value[1] == data[5]);
        }
    }
}

/// A segment request (command 0x60 to 0x7F) whose bit 4 is the one that is due
/// gets the whole value that is being handed out, marked as the last; the
/// transfer is then over. With the other bit, or without a value, it is aborted
/// with 0x0504_0001, and the value is dropped.
#[verifier::rlimit(30)]
pub proof fn law_segments(s: ServerModel, data: Seq<u8>)
    requires
        data.len() >= 8,
        0x60 <= data[0] <= 0x7F,
        s.upload.wf(),
        s.upload.offset == 0,
    ensures
        ({
            let toggle = (data[0] / 0x10) % 2;
            let value = s.upload.bytes;
            let after = s.dispatched(data);
            if toggle != s.upload.toggle || value.len() == 0 {
                &&& after.1 == aborting(0, 0, 0, 0x01, 0x00, 0x04, 0x05)
                &&& after.0 == (ServerModel {
                    upload: UploadModel { bytes: Seq::empty(), ..s.upload },
                    ..s
                })
            } else {
                &&& after.0 == (ServerModel {
                    upload: UploadModel {
                        bytes: Seq::empty(),
                        offset: 0,
                        toggle: (1 - toggle) as u8,
                    },
                    ..s
                })
                &&& after.1 matches SdoStepModel::Respond(Some(frame)) && {
                    &&& frame.len() == 8
                    &&& frame[0] == 0xA1 + 0x10 * toggle + 2 * (7 - value.len())
                    &&& forall|i: int| 0 <= i < value.len() ==> #[trigger] frame[1 + i] == value[i]
                    &&& forall|i: int| value.len() < i < 8 ==> #[trigger] frame[i] == 0
                }
            }
        }),
{
    let toggle = (data[0] / 0x10) % 2;
    lemma_abort(0, 0, 0, 0);
    assert(sdo::parsed(data) == Some(
        Ok::<RequestModel, SdoAbort>(RequestModel::UploadSegment { toggle }),
    ));
    let value = s.upload.bytes;
    assert(value.skip(0) =~= value);
    if value.len() == 0 {
        assert(s.upload.bytes =~= Seq::<u8>::empty());
    }
    let frame = sdo::segment_response(toggle, value, true);
    assert forall|i: int| 0 <= i < value.len() implies #[trigger] frame[1 + i] == value[i] by {}
    assert forall|i: int| value.len() < i < 8 implies #[trigger] frame[i] == 0 by {}
}

/// A longer value is announced with 0x82, its address and its length, and is
/// then handed out from its first byte on with the bit 0.
pub proof fn law_longer_values_are_announced(u: UploadModel, index: u16, sub: u8, value: Seq<u8>)
    requires
        5 <= value.len() <= 7,
    ensures
        sdo::upload_response(u, index, sub, value) == (
            UploadModel { bytes: value, offset: 0, toggle: 0 },
            seq![
                0x82u8,
                (index % 0x100) as u8,
                (index / 0x100) as u8,
                sub,
                value.len() as u8,
                0,
                0,
                0,
            ],
        ),
{
    assert(sdo::announced(index, sub, value.len() as int) =~= seq![
        0x82u8,
        (index % 0x100) as u8,
        (index / 0x100) as u8,
        sub,
        value.len() as u8,
        0,
        0,
        0,
    ]);
}

/// An abort by the client (command 0x80 to 0x9F) drops the value that is being
/// handed out and is not answered. A frame of fewer than eight bytes does
/// nothing. Commands below 0x20 and above 0x9F are aborted with 0x0504_0001.
pub proof fn law_other_sdo_commands(s: ServerModel, data: Seq<u8>)
    ensures
        data.len() < 8 ==> s.dispatched(data) == (s, SdoStepModel::Respond(None)),
        data.len() >= 8 && 0x80 <= data[0] <= 0x9F ==> s.dispatched(data) == (
            ServerModel {
                upload: UploadModel { bytes: Seq::empty(), offset: 0, ..s.upload },
                ..s
            },
            SdoStepModel::Respond(None),
        ),
        data.len() >= 8 && (data[0] < 0x20 || data[0] > 0x9F) ==> s.dispatched(data) == (
            s,
            aborting(0, 0, 0, 0x01, 0x00, 0x04, 0x05),
        ),
{
    lemma_abort(0, 0, 0, 0);
}

/// A node that is not stopped hands a frame on 0x601, filled up with zeros to
/// eight bytes, to its SDO server; what that answers is the node's answer. A
/// reset that is due is taken with the answer, once.
pub proof fn law_node_serves_the_dictionary(n: NodeModel, data: Seq<u8>)
    requires
        !(n.nmt is Stopped),
        data.len() <= 8,
    ensures
        ({
            let filled = Seq::new(
                8,
                |i: int|
                    if i < data.len() {
                        data[i]
                    } else {
                        0u8
                    },
            );
            let served = n.server.dispatched(filled);
            let (g, o) = (served.0.gateway, served.0.ota);
            let after = n.received(FrameId::Standard(0x601), data);
            match served.1 {
                SdoStepModel::Respond(None) => after == (
                    NodeModel { server: served.0, ..n },
                    NodeStepModel::Nothing,
                ),
                SdoStepModel::Flash(op) => after == (
                    NodeModel { server: served.0, ..n },
                    NodeStepModel::Flash(op),
                ),
                SdoStepModel::Respond(Some(payload)) => {
                    &&& after.1 == (NodeStepModel::Respond {
                        payload,
                        reset: g.reset_requested || o.reset_requested,
                    })
                    &&& after.0.nmt == n.nmt
                    &&& after.0.ticker_ms == n.ticker_ms
                    &&& after.0.server.od == served.0.od
                    &&& after.0.server.upload == served.0.upload
                    &&& after.0.server.gateway == (GatewayModel { reset_requested: false, ..g })
                    &&& after.0.server.ota == (OtaModel {
                        reset_requested: o.reset_requested && g.reset_requested,
                        ..o
                    })
                },
            }
        }),
{
    let filled = Seq::new(
        8,
        |i: int|
            if i < data.len() {
                data[i]
            } else {
                0u8
            },
    );
    assert(sdo::zero_padded(data, 8) =~= filled);
}

/// What the gateway answers by itself, for every request that is not for the
/// update machine.
pub open spec fn gateway_answer(g: GatewayModel, request: Seq<u8>) -> Seq<u8> {
    let sid = request[0];
    if request.len() == 0 {
        seq![0x7Fu8, 0x00, 0x13]
    } else if sid == 0x10 {
        if request.len() != 2 {
            seq![0x7Fu8, 0x10, 0x13]
        } else if request[1] == 1 || request[1] == 2 {
            seq![0x50u8, request[1]]
        } else {
            seq![0x7Fu8, 0x10, 0x12]
        }
    } else if sid == 0x11 {
        if request.len() != 2 {
            seq![0x7Fu8, 0x11, 0x13]
        } else if request[1] == 1 {
            seq![0x51u8, 0x01]
        } else {
            seq![0x7Fu8, 0x11, 0x12]
        }
    } else if sid == 0x14 {
        if request.len() != 4 {
            seq![0x7Fu8, 0x14, 0x13]
        } else {
            seq![0x54u8]
        }
    } else if sid == 0x19 {
        if request.len() < 3 {
            seq![0x7Fu8, 0x19, 0x13]
        } else if request[1] == 2 {
            seq![0x59u8, 0x02, 0x00, 0x00]
        } else {
            seq![0x7Fu8, 0x19, 0x12]
        }
    } else if sid == 0x22 {
        if request.len() != 3 {
            seq![0x7Fu8, 0x22, 0x13]
        } else if request[1] == 0x86 && request[2] == 0xF1 {
            seq![0x62u8, 0x86, 0xF1, g.session]
        } else {
            seq![0x7Fu8, 0x22, 0x31]
        }
    } else if sid == 0x2E {
        if request.len() < 3 {
            seq![0x7Fu8, 0x2E, 0x13]
        } else {
            seq![0x7Fu8, 0x2E, 0x31]
        }
    } else if sid == 0x27 {
        if request.len() < 2 {
            seq![0x7Fu8, 0x27, 0x13]
        } else if request[1] == 1 {
            if g.unlocked {
                seq![0x7Fu8, 0x27, 0x33]
            } else {
                seq![0x67u8, 0x01, 0xA5, 0xA5]
            }
        } else if request[1] == 2 {
            if request.len() != 4 {
                seq![0x7Fu8, 0x27, 0x13]
            } else if request[2] == 0xB7 && request[3] == 0xA5 {
                seq![0x67u8, 0x02]
            } else {
                seq![0x7Fu8, 0x27, 0x33]
            }
        } else {
            seq![0x7Fu8, 0x27, 0x12]
        }
    } else if sid == 0x3E {
        if request.len() != 2 {
            seq![0x7Fu8, 0x3E, 0x13]
        } else if request[1] == 0x00 {
            seq![0x7Eu8, 0x00]
        } else if request[1] == 0x80 {
            Seq::empty()
        } else {
            seq![0x7Fu8, 0x3E, 0x12]
        }
    } else if sid == 0x34 || sid == 0x36 || sid == 0x37 {
        seq![0x7Fu8, sid, 0x22]
    } else {
        seq![0x7Fu8, sid, 0x12]
    }
}

/// A request that is not for the update machine is answered at once. Only three
/// requests do more than that: `[0x10, session]` enters the session and takes
/// the security access back, `[0x11, 0x01]` makes a reset due, and
/// `[0x27, 0x02, 0xB7, 0xA5]` unlocks.
#[verifier::rlimit(30)]
pub proof fn law_gateway_services(g: GatewayModel, o: OtaModel, request: Seq<u8>)
    requires
        request.len() == 0 || g.session != 2 || !(request[0] == 0x34 || request[0] == 0x36
            || request[0] == 0x37),
    ensures
        ({
            let after = g.dispatched(o, request);
            let answer = gateway_answer(g, request);
            &&& after.0 == (GatewayModel {
                session: if request.len() == 2 && request[0] == 0x10 && (request[1] == 1
                    || request[1] == 2) {
                    request[1]
                } else {
                    g.session
                },
                unlocked: if request.len() == 2 && request[0] == 0x10 && (request[1] == 1
                    || request[1] == 2) {
                    false
                } else {
                    g.unlocked || request == seq![0x27u8, 0x02, 0xB7, 0xA5]
                },
                reset_requested: g.reset_requested || request == seq![0x11u8, 0x01],
                response: answer,
            })
            &&& after.1 == o
            &&& after.2 == GatewayStep::Stored(answer.len() as usize)
        }),
{
    if request.len() > 0 {
        let payload = request.skip(1);
        if payload.len() >= 1 {
            assert(payload[0] == request[1]);
        }
        if payload.len() >= 2 {
            assert(payload[1] == request[2]);
        }
        if payload.len() >= 3 {
            assert(payload[2] == request[3]);
        }
        if request.len() == 2 && request[0] == 0x11 && request[1] == 1 {
            assert(request =~= seq![0x11u8, 0x01]);
        }
        if request.len() == 4 && request[0] == 0x27 && request[1] == 2 {
            assert((bytes::le_u16(request[2], request[3]) == 0xA5B7) == (request[2] == 0xB7
                && request[3] == 0xA5));
            if request[2] == 0xB7 && request[3] == 0xA5 {
                assert(request =~= seq![0x27u8, 0x02, 0xB7, 0xA5]);
            }
        }
    }
    let known = seq![0x11u8, 0x01];
    let key = seq![0x27u8, 0x02, 0xB7, 0xA5];
    assert(known.len() == 2 && known[0] == 0x11 && known[1] == 1);
    assert(key.len() == 4 && key[0] == 0x27 && key[1] == 2 && key[2] == 0xB7 && key[3] == 0xA5);
}

/// In the programming session, what follows 0x34, 0x36 and 0x37 goes to the
/// update machine as it is. Its answer becomes the gateway's, cut to seven
/// bytes; its flash work is passed on.
pub proof fn law_gateway_updates(g: GatewayModel, o: OtaModel, sid: u8, payload: Seq<u8>)
    requires
        g.session == 2,
        sid == 0x34 || sid == 0x36 || sid == 0x37,
    ensures
        ({
            let begun = if sid == 0x34 {
                o.request_download(payload)
            } else if sid == 0x36 {
                o.transfer_data(payload)
            } else {
                o.transfer_exit(payload)
            };
            let after = g.dispatched(o, seq![sid] + payload);
            &&& after.1 == begun.0
            &&& match begun.1 {
                StepModel::Flash(op) => after.0 == g && after.2 == GatewayStep::Flash(op),
                StepModel::Reply(reply) => {
                    &&& after.0 == (GatewayModel { response: first_seven(reply), ..g })
                    &&& after.2 == GatewayStep::Stored(first_seven(reply).len() as usize)
                },
            }
        }),
{
    assert((seq![sid] + payload).skip(1) =~= payload);
}

/// At most the first seven bytes.
pub open spec fn first_seven(reply: Seq<u8>) -> Seq<u8> {
    if reply.len() <= 7 {
        reply
    } else {
        reply.take(7)
    }
}

/// After a flash operation the update machine goes on with its outcome, and a
/// write to the gateway is acknowledged once it answers.
pub proof fn law_gateway_goes_on_after_flash(
    s: ServerModel,
    outcome: FlashOutcome,
)
    ensures
        ({
            let went_on = s.ota.resumed(outcome);
            let after = s.resumed(outcome);
            match went_on.1 {
                StepModel::Flash(op) => after == (
                    ServerModel { ota: went_on.0, ..s },
                    SdoStepModel::Flash(op),
                ),
                StepModel::Reply(reply) => after == (
                    ServerModel {
                        ota: went_on.0,
                        gateway: GatewayModel { response: first_seven(reply), ..s.gateway },
                        ..s
                    },
                    SdoStepModel::Respond(Some(seq![0x60u8, 0, 0, 0, 0, 0, 0, 0])),
                ),
            }
        }),
{
}

/// What the node says of the outcome of a flash operation is what its SDO server
/// says of it; a reset that is due is taken with the answer, once.
pub proof fn law_node_goes_on_after_flash(n: NodeModel, outcome: FlashOutcome)
    ensures
        ({
            let went_on = n.server.resumed(outcome);
            let (g, o) = (went_on.0.gateway, went_on.0.ota);
            let after = n.resumed(outcome);
            match went_on.1 {
                SdoStepModel::Flash(op) => after == (
                    NodeModel { server: went_on.0, ..n },
                    NodeStepModel::Flash(op),
                ),
                SdoStepModel::Respond(None) => after == (
                    NodeModel { server: went_on.0, ..n },
                    NodeStepModel::Nothing,
                ),
                SdoStepModel::Respond(Some(payload)) => {
                    &&& after.1 == (NodeStepModel::Respond {
                        payload,
                        reset: g.reset_requested || o.reset_requested,
                    })
                    &&& after.0.nmt == n.nmt
                    &&& after.0.server.od == went_on.0.od
                    &&& after.0.server.gateway == (GatewayModel { reset_requested: false, ..g })
                    &&& after.0.server.ota == (OtaModel {
                        reset_requested: o.reset_requested && g.reset_requested,
                        ..o
                    })
                },
            }
        }),
{
}

/// The gateway answers a response that is too long for it with 0x14 to the
/// service that it is of, and keeps no more than seven bytes of a foreign one.
pub proof fn law_gateway_limits(payload: Seq<u8>)
    requires
        payload.len() > 0,
    ensures
        uds::too_long(payload) == seq![
            0x7Fu8,
            if payload[0] < 0x40 {
                0u8
            } else {
                (payload[0] - 0x40) as u8
            },
            0x14,
        ],
        uds::kept(payload) == first_seven(payload),
{
}

/// Responses of the SDO server have the standard identifier 0x581.
pub proof fn law_sdo_responses(step: sdo::SdoStep, frame: Frame, node: canopen::NodeStep)
    requires
        step.wf(),
        step == sdo::SdoStep::Respond(Some(frame)),
        node.wf(),
    ensures
        frame.id == FrameId::Standard(0x581),
        node matches canopen::NodeStep::Respond { frame, .. } ==> frame.id == FrameId::Standard(
            0x581,
        ),
{
}

/// The timer is restarted exactly when the period is another one and not 0, with
/// the new period.
pub proof fn law_timer_is_restarted(n: NodeModel)
    ensures
        n.rearm() == if n.server.od.heartbeat_ms == 0 || n.server.od.heartbeat_ms == n.ticker_ms {
            None
        } else {
            Some(n.server.od.heartbeat_ms)
        },
        n.ticked().rearm() is None,
{
}

/// A period written over the bus is the one that the next tick restarts the timer
/// with; with the period 0 no heartbeat is sent.
pub proof fn law_written_period_is_taken_over(n: NodeModel, lo: u8, hi: u8)
    requires
        !(n.nmt is Stopped),
    ensures
        ({
            let write = seq![0x2Bu8, 0x17, 0x10, 0x00, lo, hi, 0x00, 0x00];
            let after = n.received(FrameId::Standard(0x601), write).0;
            let period = lo + 0x100 * hi;
            &&& period != 0 && period != n.ticker_ms ==> after.rearm() == Some(period as u16)
            &&& period == 0 ==> after.heartbeat() is None && after.rearm() is None
            &&& period != 0 ==> after.heartbeat() is Some
        }),
{
    let write = seq![0x2Bu8, 0x17, 0x10, 0x00, lo, hi, 0x00, 0x00];
    law_dictionary_writes(n.server, write);
    law_node_serves_the_dictionary(n, write);
    let filled = Seq::new(
        8,
        |i: int|
            if i < write.len() {
                write[i]
            } else {
                0u8
            },
    );
    assert(filled =~= write);
}

/// What a node starts with: the gateway in the default session, locked and
/// without a response, no update going on, and no value being handed out.
pub proof fn law_start_of_the_node()
    ensures
        GatewayModel::initial() == (GatewayModel {
            session: 1,
            unlocked: false,
            reset_requested: false,
            response: Seq::empty(),
        }),
        OtaModel::initial().state is Idle,
        OtaModel::initial().waiting is Nothing,
        !OtaModel::initial().reset_requested,
        OtaModel::initial().inv(),
        UploadModel::idle() == (UploadModel { bytes: Seq::empty(), offset: 0, toggle: 0 }),
        od::DEFAULT_HEARTBEAT_MS == 1000,
{
}

/// A step resets the node exactly if it is a response that says so, and only a
/// response has something to send.
pub proof fn law_steps(payload: Seq<u8>, reset: bool, op: FlashOp)
    ensures
        (NodeStepModel::Respond { payload, reset }).resets() == reset,
        (NodeStepModel::Respond { payload, reset }).response() == Some(payload),
        !NodeStepModel::Nothing.resets() && NodeStepModel::Nothing.response() is None,
        !NodeStepModel::Flash(op).resets() && NodeStepModel::Flash(op).response() is None,
{
}

} // verus!
