//! A runtime without hardware: it keeps the selected pixel and a clock that
//! moves by a fixed step with every frame.

use crate::forth::cell_data::CellData;
use crate::pixelblaze::traits::Peripherals;
use crate::vanillajs::runtime::VanillaJSRuntime;
use vstd::prelude::*;

verus! {

/// The runtime of a console host.
#[derive(Clone, Copy, Debug, PartialEq, Eq)]
pub struct ConsoleRuntime {
    pub time_ms: u32,
    pub dt: i32,
    pub led_idx: usize,
}

impl ConsoleRuntime {
    /// A runtime at time zero whose clock moves by `dt` milliseconds with
    /// every frame.
    pub fn new(dt: i32) -> (r: Self)
        ensures
            r == (ConsoleRuntime { time_ms: 0, dt, led_idx: 0 }),
    {
        ConsoleRuntime { time_ms: 0, dt, led_idx: 0 }
    }
}

impl Default for ConsoleRuntime {
    fn default() -> (r: Self)
        ensures
            r == (ConsoleRuntime { time_ms: 0, dt: 100, led_idx: 0 }),
    {
        ConsoleRuntime::new(100)
    }
}

impl Peripherals for ConsoleRuntime {
    fn set_led_idx(&mut self, idx: usize)
        ensures
            *final(self) == (ConsoleRuntime { led_idx: idx, ..*old(self) }),
    {
        self.led_idx = idx;
    }

    fn led_hsv(&mut self, h: CellData, s: CellData, v: CellData)
        ensures
            *final(self) == *old(self),
    {
    }

    fn led_rgb(&mut self, r: CellData, g: CellData, b: CellData)
        ensures
            *final(self) == *old(self),
    {
    }

    fn ext_led_okhsl(&mut self, h: CellData, s: CellData, l: CellData)
        ensures
            *final(self) == *old(self),
    {
    }

    /// The end of a frame moves the clock by the step, wrapping around.
    fn led_commit(&mut self)
        ensures
            *final(self) == (ConsoleRuntime {
                time_ms: old(self).time_ms.wrapping_add_signed(old(self).dt),
                ..*old(self)
            }),
    {
        self.time_ms = self.time_ms.wrapping_add_signed(self.dt);
    }
}

impl VanillaJSRuntime for ConsoleRuntime {
    fn time_millis(&mut self) -> (t: u32)
        ensures
            t == old(self).time_ms,
            *final(self) == *old(self),
    {
        self.time_ms
    }

    fn log(&mut self, s: &str)
        ensures
            *final(self) == *old(self),
    {
    }
}

} // verus!
