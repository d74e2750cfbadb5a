//! Object dictionary.
//!
//! | Index  | Sub  | Name                  | Type | Access |
//! |--------|------|-----------------------|------|--------|
//! | 0x1000 | 0    | DeviceType            | u32  | RO     |
//! | 0x1001 | 0    | ErrorRegister         | u8   | RO     |
//! | 0x1017 | 0    | HeartbeatProducerTime | u16  | RW     |
//! | 0x1018 | 1..4 | Identity              | u32  | RO     |
//! | 0x2F00 | 0    | diagnostic gateway    | raw  | RW     |

use vstd::prelude::*;

use crate::bytes;
use crate::can::uds;
use crate::can::uds::GatewayModel;
use crate::can::uds::GatewayStep;
use crate::can::uds::UdsGateway;
use crate::drivers::flash::FlashOp;
use crate::ota::Ota;
use crate::ota::OtaModel;

verus! {

/// Longest value of an entry.
pub const VALUE_MAX: usize = 7;

/// Heartbeat period after start-up.
pub const DEFAULT_HEARTBEAT_MS: u16 = 1000;

/// Index of the diagnostic gateway.
pub const GATEWAY_INDEX: u16 = 0x2F00;

/// Index of the heartbeat period.
pub const HEARTBEAT_INDEX: u16 = 0x1017;

/// A value of the dictionary: `len` bytes, numbers least significant byte
/// first. What stands behind them does not matter.
#[derive(Copy, Clone, Debug, PartialEq, Eq)]
pub struct OdValue {
    pub bytes: [u8; 7],
    pub len: u8,
}

impl View for OdValue {
    type V = Seq<u8>;

    open spec fn view(&self) -> Seq<u8> {
        self.bytes@.take(self.len as int)
    }
}

impl OdValue {
    /// The value fits, and zeros stand behind it.
    pub open spec fn wf(&self) -> bool {
        &&& self.len <= VALUE_MAX
        &&& forall|i: int| self.len <= i < VALUE_MAX ==> #[trigger] self.bytes@[i] == 0
    }

    pub fn u8(v: u8) -> (value: OdValue)
        ensures
            value@ == seq![v],
            value.wf(),
    {
        OdValue { bytes: [v, 0, 0, 0, 0, 0, 0], len: 1 }
    }

    pub fn u16(v: u16) -> (value: OdValue)
        ensures
            value@ == bytes::u16_le(v),
            value.wf(),
    {
        let b = bytes::u16_to_le(v);
        OdValue { bytes: [b[0], b[1], 0, 0, 0, 0, 0], len: 2 }
    }

    pub fn u32(v: u32) -> (value: OdValue)
        ensures
            value@ == bytes::u32_le(v),
            value.wf(),
    {
        let b = bytes::u32_to_le(v);
        OdValue { bytes: [b[0], b[1], b[2], b[3], 0, 0, 0], len: 4 }
    }

    /// The value made of `data`.
    pub fn from_slice(data: &[u8]) -> (value: OdValue)
        requires
            data@.len() <= VALUE_MAX,
        ensures
            value@ == data@,
            value.wf(),
    {
        let mut out: [u8; 7] = [0; 7];
        let mut i: usize = 0;
        while i < data.len()
            invariant
                i <= data@.len() <= VALUE_MAX,
                forall|j: int| 0 <= j < i ==> #[trigger] out@[j] == data@[j],
                forall|j: int| i <= j < VALUE_MAX ==> #[trigger] out@[j] == 0,
            decreases data.len() - i,
        {
            out[i] = data[i];
            i = i + 1;
        }
        let value = OdValue { bytes: out, len: data.len() as u8 };
        assert(value@ =~= data@);
        value
    }
}

/// The part of the dictionary that can change.
pub struct ObjectDictionary {
    pub heartbeat_ms: u16,
}

impl ObjectDictionary {
    pub fn new() -> (od: ObjectDictionary)
        ensures
            od.heartbeat_ms == DEFAULT_HEARTBEAT_MS,
    {
        ObjectDictionary { heartbeat_ms: DEFAULT_HEARTBEAT_MS }
    }
}

/// SDO abort reasons.
#[derive(Copy, Clone, Debug, PartialEq, Eq, Structural)]
pub enum SdoAbort {
    /// Access to the object is not supported.
    NotSupported,
    /// The object does not exist.
    NotExist,
    /// The object has no such subindex.
    NoSubindex,
    /// Attempt to write a read-only object.
    ReadOnly,
    /// The value has not the length of the object.
    LengthMismatch,
    /// The state of the device prevents the access.
    LocalControl,
    /// The command specifier is not valid.
    InvalidCommand,
}

impl SdoAbort {
    /// The abort code of CiA 301.
    pub open spec fn number(self) -> u32 {
        match self {
            SdoAbort::NotSupported => 0x0601_0000,
            SdoAbort::NotExist => 0x0602_0000,
            SdoAbort::NoSubindex => 0x0604_0043,
            SdoAbort::ReadOnly => 0x0601_0002,
            SdoAbort::LengthMismatch => 0x0607_0010,
            SdoAbort::LocalControl => 0x0800_0022,
            SdoAbort::InvalidCommand => 0x0504_0001,
        }
    }

    pub fn code(self) -> (c: u32)
        ensures
            c == self.number(),
    {
        match self {
            SdoAbort::NotSupported => 0x0601_0000,
            SdoAbort::NotExist => 0x0602_0000,
            SdoAbort::NoSubindex => 0x0604_0043,
            SdoAbort::ReadOnly => 0x0601_0002,
            SdoAbort::LengthMismatch => 0x0607_0010,
            SdoAbort::LocalControl => 0x0800_0022,
            SdoAbort::InvalidCommand => 0x0504_0001,
        }
    }
}

/// No two abort reasons share a code.
pub proof fn law_abort_codes_are_distinct(a: SdoAbort, b: SdoAbort)
    requires
        a.number() == b.number(),
    ensures
        a == b,
{
}

pub fn heartbeat_period_ms(od: &ObjectDictionary) -> (ms: u16)
    ensures
        ms == od.heartbeat_ms,
{
    od.heartbeat_ms
}

/// Sets the heartbeat period. 0 means that no heartbeat is sent.
pub fn set_heartbeat_period_ms(od: &mut ObjectDictionary, ms: u16)
    ensures
        final(od).heartbeat_ms == ms,
{
    od.heartbeat_ms = ms;
}

/// The bytes of an entry, or why it cannot be read.
pub open spec fn entry(od: ObjectDictionary, gateway: GatewayModel, index: u16, sub: u8) -> Result<
    Seq<u8>,
    SdoAbort,
> {
    if index == 0x1000 && sub == 0 {
        Ok(bytes::u32_le(0))
    } else if index == 0x1001 && sub == 0 {
        Ok(seq![0u8])
    } else if index == HEARTBEAT_INDEX && sub == 0 {
        Ok(bytes::u16_le(od.heartbeat_ms))
    } else if index == 0x1018 && sub == 1 {
        Ok(bytes::u32_le(0xCAFE))
    } else if index == 0x1018 && sub == 2 {
        Ok(bytes::u32_le(0xB0))
    } else if index == 0x1018 && sub == 3 {
        Ok(bytes::u32_le(1))
    } else if index == 0x1018 && sub == 4 {
        Ok(bytes::u32_le(0))
    } else if index == GATEWAY_INDEX && sub == 0 {
        Ok(
            if gateway.response.len() <= uds::POSITIVE_MAX {
                gateway.response
            } else {
                gateway.response.take(uds::POSITIVE_MAX as int)
            },
        )
    } else if index == 0x1018 && sub > 4 {
        Err(SdoAbort::NoSubindex)
    } else {
        Err(SdoAbort::NotExist)
    }
}

/// Reads an entry.
pub fn read(od: &ObjectDictionary, gateway: &UdsGateway, index: u16, sub: u8) -> (r: Result<
    OdValue,
    SdoAbort,
>)
    ensures
        match r {
            Ok(value) => entry(*od, gateway@, index, sub) == Ok::<Seq<u8>, SdoAbort>(value@)
                && value.wf(),
            Err(abort) => entry(*od, gateway@, index, sub) == Err::<Seq<u8>, SdoAbort>(abort),
        },
{
    match (index, sub) {
        (0x1000, 0) => Ok(OdValue::u32(0)),
        (0x1001, 0) => Ok(OdValue::u8(0)),
        (0x1017, 0) => Ok(OdValue::u16(heartbeat_period_ms(od))),
        (0x1018, 1) => Ok(OdValue::u32(0x0000_CAFE)),
        (0x1018, 2) => Ok(OdValue::u32(0x0000_00B0)),
        (0x1018, 3) => Ok(OdValue::u32(0x0000_0001)),
        (0x1018, 4) => Ok(OdValue::u32(0x0000_0000)),
        (0x2F00, 0) => Ok(uds::load_response(gateway)),
        (0x1018, n) if n > 4 => Err(SdoAbort::NoSubindex),
        _ => Err(SdoAbort::NotExist),
    }
}

/// What a write ends with: done, or flash work of a diagnostic request.
#[derive(Copy, Clone, Debug, PartialEq, Eq, Structural)]
pub enum OdWrite {
    Done,
    Flash(FlashOp),
}

/// What a diagnostic request through the dictionary ends with.
pub open spec fn gateway_write(step: GatewayStep) -> OdWrite {
    match step {
        GatewayStep::Stored(_) => OdWrite::Done,
        GatewayStep::Flash(op) => OdWrite::Flash(op),
    }
}

/// Whether a write of `len` bytes to an entry is let through.
pub open spec fn write_verdict(index: u16, sub: u8, len: int) -> Result<(), SdoAbort> {
    if index == HEARTBEAT_INDEX && sub == 0 {
        if len == 2 {
            Ok(())
        } else {
            Err(SdoAbort::LengthMismatch)
        }
    } else if index == GATEWAY_INDEX && sub == 0 {
        Ok(())
    } else if index == 0x1000 || index == 0x1001 || index == 0x1018 {
        Err(SdoAbort::ReadOnly)
    } else {
        Err(SdoAbort::NotExist)
    }
}

/// Dictionary, gateway, update machine and result after a write.
pub open spec fn written(
    od: ObjectDictionary,
    gateway: GatewayModel,
    o: OtaModel,
    index: u16,
    sub: u8,
    data: Seq<u8>,
) -> (ObjectDictionary, GatewayModel, OtaModel, Result<OdWrite, SdoAbort>) {
    match write_verdict(index, sub, data.len() as int) {
        Err(abort) => (od, gateway, o, Err(abort)),
        Ok(()) => if index == HEARTBEAT_INDEX {
            (
                ObjectDictionary { heartbeat_ms: bytes::le_u16(data[0], data[1]) },
                gateway,
                o,
                Ok(OdWrite::Done),
            )
        } else {
            let after = gateway.dispatched(o, data);
            (od, after.0, after.1, Ok(gateway_write(after.2)))
        },
    }
}

/// Writes an entry. A write to the gateway is a diagnostic request.
pub fn write(
    od: &mut ObjectDictionary,
    gateway: &mut UdsGateway,
    ota: &mut Ota,
    index: u16,
    sub: u8,
    value: OdValue,
) -> (r: Result<OdWrite, SdoAbort>)
    requires
        value.len <= VALUE_MAX,
        old(ota).wf(),
        old(ota)@.ready(),
    ensures
        (*final(od), final(gateway)@, final(ota)@, r) == written(
            *old(od),
            old(gateway)@,
            old(ota)@,
            index,
            sub,
            value@,
        ),
        final(ota).wf(),
        old(gateway)@.wf() ==> final(gateway)@.wf(),
{
    match (index, sub) {
        (0x1017, 0) => {
            if value.len == 2 {
                let ms: u16 = bytes::u16_from_le(value.bytes[0], value.bytes[1]);
                set_heartbeat_period_ms(od, ms);
                Ok(OdWrite::Done)
            } else {
                Err(SdoAbort::LengthMismatch)
            }
        },
        (0x2F00, 0) => {
            let request = vstd::slice::slice_subrange(value.bytes.as_slice(), 0, value.len as usize);
            assert(request@ =~= value@);
            match uds::dispatch(gateway, ota, request) {
                GatewayStep::Stored(_) => Ok(OdWrite::Done),
                GatewayStep::Flash(op) => Ok(OdWrite::Flash(op)),
            }
        },
        (0x1000, _) | (0x1001, _) | (0x1018, _) => Err(SdoAbort::ReadOnly),
        _ => Err(SdoAbort::NotExist),
    }
}

/// The heartbeat period reads back as it was written.
pub proof fn law_heartbeat_period_reads_back(
    od: ObjectDictionary,
    gateway: GatewayModel,
    o: OtaModel,
    ms: u16,
)
    ensures
        ({
            let after = written(od, gateway, o, HEARTBEAT_INDEX, 0, bytes::u16_le(ms));
            &&& after.3 == Ok::<OdWrite, SdoAbort>(OdWrite::Done)
            &&& entry(after.0, after.1, HEARTBEAT_INDEX, 0) == Ok::<Seq<u8>, SdoAbort>(
                bytes::u16_le(ms),
            )
        }),
{
    bytes::lemma_u16_le_round_trip(ms);
}

/// A refused write changes nothing.
pub proof fn law_refused_write_changes_nothing(
    od: ObjectDictionary,
    gateway: GatewayModel,
    o: OtaModel,
    index: u16,
    sub: u8,
    data: Seq<u8>,
)
    requires
        written(od, gateway, o, index, sub, data).3 is Err,
    ensures
        written(od, gateway, o, index, sub, data).0 == od,
        written(od, gateway, o, index, sub, data).1 == gateway,
        written(od, gateway, o, index, sub, data).2 == o,
{
}

/// The abort codes of CiA 301.
pub proof fn law_abort_codes(a: SdoAbort)
    ensures
        a is NotSupported <==> a.number() == 0x0601_0000,
        a is NotExist <==> a.number() == 0x0602_0000,
        a is NoSubindex <==> a.number() == 0x0604_0043,
        a is ReadOnly <==> a.number() == 0x0601_0002,
        a is LengthMismatch <==> a.number() == 0x0607_0010,
        a is LocalControl <==> a.number() == 0x0800_0022,
        a is InvalidCommand <==> a.number() == 0x0504_0001,
{
}

} // verus!
