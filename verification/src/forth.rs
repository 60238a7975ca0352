//! The bytecode machine and what surrounds it.

pub mod cell;
pub mod cell_data;
pub mod compiler;
pub mod env;
pub mod frame;
pub mod inter;
pub mod laws;
pub mod ops;
pub mod runtime;
pub mod semantics;
pub mod store;
pub mod table;
pub mod text;
pub mod util;
pub mod vm;
