//! The LED flavor: the peripheral a host offers, the foreign operations of
//! effect programs, and the executor of the rendering cycle.

pub mod executor;
pub mod ffi;
pub mod laws;
pub mod runtime;
pub mod timer;
pub mod traits;
pub mod util;
