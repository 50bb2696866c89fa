//! Input devices.
pub mod touch;
