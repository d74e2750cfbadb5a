//! Command shell on the debug UART.

pub mod commands;
pub mod laws;
pub mod task;
pub mod text;
