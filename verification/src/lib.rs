//! A compact stack-based virtual machine for LED effect programs.
//!
//! - [`forth::vm`] is the machine: cells, two stacks, scoped variables, a
//!   function table and the driver. What the machine does is laid down in
//!   [`forth::semantics`], and [`forth::laws`] proves what follows from it.
//! - [`forth::compiler`] lowers the syntax tree of a small JavaScript-like
//!   language into bytecode.
//! - [`pixelblaze`] holds the foreign operations of effect programs, what a
//!   host with LEDs has to offer, and the executor of the rendering cycle;
//!   [`pixelblaze::laws`] proves what the machine can rely on when it calls
//!   those operations. [`vanillajs`] and [`py`] are flavors without LEDs.
//! - [`forth::inter`] is a word interpreter with its environment and its
//!   built-in words.

pub mod forth;
pub mod pixelblaze;
pub mod py;
pub mod vanillajs;
pub mod vm2;
