//! Between the CAN controller and the services.

pub mod uds_bridge;

use vstd::prelude::*;

verus! {

/// Bit rate of arbitration and of classic frames.
pub const CAN_BITRATE_BPS: u32 = 500_000;

/// Bit rate of the data in FD frames.
pub const CAN_FD_DATA_BITRATE_BPS: u32 = 2_000_000;

} // verus!
