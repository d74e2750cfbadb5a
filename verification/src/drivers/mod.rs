//! Rules of the on-chip peripherals, apart from the registers themselves.

pub mod can;
pub mod debug_uart;
pub mod flash;
