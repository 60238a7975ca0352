//! The names under which programs of the plain flavor call the host.

use crate::vanillajs::runtime::VanillaJSFFI;
use vstd::prelude::*;

verus! {

/// The table of the plain flavor: names with their operations.
pub fn ffi_funcs() -> (table: Vec<(String, VanillaJSFFI)>)
    ensures
        table@.len() == 2,
        table@[0].0@ == "console_log"@ && table@[0].1 == VanillaJSFFI::ConsoleLog,
        table@[1].0@ == "math_pow"@ && table@[1].1 == VanillaJSFFI::MathPow,
{
    let mut table: Vec<(String, VanillaJSFFI)> = Vec::new();
    table.push(("console_log".to_owned(), VanillaJSFFI::ConsoleLog));
    table.push(("math_pow".to_owned(), VanillaJSFFI::MathPow));
    table
}

} // verus!
