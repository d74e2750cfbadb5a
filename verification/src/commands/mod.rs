//! Commands of the interactive command line.

pub mod ota;
pub mod shell;
