//! What the board is: an ST B-G431B-ESC1.

use vstd::prelude::*;

verus! {

pub const BOARD_NAME: &'static str = "B-G431B-ESC1";

pub const BOARD_MCU: &'static str = "STM32G431CBU6";

pub const FLASH_SIZE_KB: u32 = 128;

pub const SRAM_SIZE_KB: u32 = 32;

pub const DEBUG_UART_BAUD: u32 = 921_600;

pub const DEBUG_UART_TX_BUF_SIZE: usize = 256;

pub const DEBUG_UART_RX_BUF_SIZE: usize = 64;

/// System clock: an 8 MHz crystal, times 85, over 4.
pub const SYSCLK_HZ: u32 = 170_000_000;

/// Switching frequency of the inverter.
pub const PWM_FREQ_HZ: u32 = 20_000;

/// Dead time of the inverter in system clock cycles.
pub const DEAD_TIME_CYCLES: u16 = 128;

} // verus!
