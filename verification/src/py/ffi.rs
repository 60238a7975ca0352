//! The names under which programs of the Python-like flavor call the host.

use crate::pixelblaze::ffi::PixelBlazeFFI;
use vstd::prelude::*;

verus! {

/// The table of the Python-like flavor: `print` writes to the log.
pub fn ffi_funcs() -> (table: Vec<(String, PixelBlazeFFI)>)
    ensures
        table@.len() == 1,
        table@[0].0@ == "print"@ && table@[0].1 == PixelBlazeFFI::ConsoleLog,
{
    let mut table: Vec<(String, PixelBlazeFFI)> = Vec::new();
    table.push(("print".to_owned(), PixelBlazeFFI::ConsoleLog));
    table
}

} // verus!
