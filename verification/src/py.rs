//! The Python-like flavor.

pub mod ffi;
