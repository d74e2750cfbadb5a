//! Verified core of a field-oriented motor controller: CANopen and UDS
//! servers, in-application firmware update, flash layout rules and the
//! operator shell. Everything here is plain computation; peripherals,
//! tasks and timers live in the application around it.

pub mod boot;
pub mod bsp;
pub mod bytes;
pub mod can;
pub mod commands;
pub mod drivers;
pub mod hal;
pub mod key_store;
pub mod metadata;
pub mod ota;
pub mod shell;
pub mod tasks;
pub mod uds;
