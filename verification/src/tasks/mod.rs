//! Decisions of the periodic tasks.

pub mod motor;
