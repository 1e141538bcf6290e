//! Helpers that talk to the operating system.

pub mod linux;
