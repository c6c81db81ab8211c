//! Preparing a new host or domain name for the operating system: trimming,
//! validation, termination. One flavour per form in which a system takes its
//! names.

pub mod unix;
pub mod windows;
