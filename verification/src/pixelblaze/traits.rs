//! What a host with LEDs offers.

use crate::forth::cell_data::CellData;
use crate::forth::util::MockRuntime;
use crate::vanillajs::runtime::VanillaJSRuntime;
use vstd::prelude::*;

verus! {

/// A strip of LEDs that is written one pixel at a time.
pub trait Peripherals {
    /// Begins a frame.
    fn led_begin(&mut self) {
    }

    /// Selects the pixel that the next color goes to.
    fn set_led_idx(&mut self, idx: usize);

    /// Gives the selected pixel a color by hue, saturation and value.
    fn led_hsv(&mut self, h: CellData, s: CellData, v: CellData);

    /// Gives the selected pixel a color by red, green and blue.
    fn led_rgb(&mut self, r: CellData, g: CellData, b: CellData);

    /// Gives the selected pixel a color by hue, saturation and lightness in
    /// the OkHSL space.
    fn ext_led_okhsl(&mut self, h: CellData, s: CellData, l: CellData);

    /// Ends a frame.
    fn led_commit(&mut self) {
    }
}

/// A host for effect programs: the base runtime with LEDs.
pub trait PixelBlazeRuntime: VanillaJSRuntime + Peripherals {

}

impl<RT> PixelBlazeRuntime for RT where RT: VanillaJSRuntime + Peripherals {

}

impl Peripherals for MockRuntime {
    fn set_led_idx(&mut self, idx: usize) {
    }

    fn led_hsv(&mut self, h: CellData, s: CellData, v: CellData) {
    }

    fn led_rgb(&mut self, r: CellData, g: CellData, b: CellData) {
    }

    fn ext_led_okhsl(&mut self, h: CellData, s: CellData, l: CellData) {
    }
}

} // verus!
