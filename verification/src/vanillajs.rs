//! The plain flavor: console output and a power function.

pub mod ffi;
pub mod runtime;
