//! The node's services on the CAN bus.

pub mod canopen;
pub mod frame;
pub mod laws;
pub mod od;
pub mod sdo;
pub mod uds;
pub mod uds_config;
pub mod uds_transport;
pub mod wire;

use vstd::prelude::*;

verus! {

/// Bit rate of the bus.
pub const CAN_BITRATE_BPS: u32 = 500_000;

} // verus!
