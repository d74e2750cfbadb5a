//! Flash layout of a single application image.

pub mod flash;
