//! Colors for LEDs that take red, green and blue.

use crate::forth::cell_data::{CellData, ONE_BITS};
use vstd::prelude::*;

verus! {

/// The hue as the LEDs take it: as it is.
pub fn cook_hue(h: CellData) -> (r: CellData)
    ensures
        r == h,
{
    h
}

/// Where a hue stands within its sixth of the color wheel, from 0 to 252.
pub open spec fn hue_offset(h: int) -> int {
    ((h * 2) % 85) * 3
}

/// The value that goes to the weakest channel.
pub open spec fn low_channel(s: int, v: int) -> int {
    v * (255 - s) / 255
}

/// The value of the channel that falls within a sixth of the wheel.
pub open spec fn falling_channel(h: int, s: int, v: int) -> int {
    v * (255 - (s * hue_offset(h)) / 255) / 255
}

/// The value of the channel that rises within a sixth of the wheel.
pub open spec fn rising_channel(h: int, s: int, v: int) -> int {
    v * (255 - (s * (255 - hue_offset(h))) / 255) / 255
}

/// Red, green and blue of a color given by hue, saturation and value, each
/// from 0 to 255. The wheel has six parts, which the hue walks through from
/// red over green and blue back to red.
pub open spec fn hsv2rgb_spec(h: u8, s: u8, v: u8) -> (int, int, int) {
    let p = low_channel(s as int, v as int);
    let q = falling_channel(h as int, s as int, v as int);
    let t = rising_channel(h as int, s as int, v as int);
    if h <= 42 {
        (v as int, t, p)
    } else if h <= 84 {
        (q, v as int, p)
    } else if h <= 127 {
        (p, v as int, t)
    } else if h <= 169 {
        (p, q, v as int)
    } else if h <= 212 {
        (t, p, v as int)
    } else if h <= 254 {
        (v as int, p, q)
    } else {
        (v as int, t, p)
    }
}

/// Red, green and blue of a color given by hue, saturation and value.
pub fn hsv2rgb(h: u8, s: u8, v: u8) -> (rgb: (u8, u8, u8))
    ensures
        (rgb.0 as int, rgb.1 as int, rgb.2 as int) == hsv2rgb_spec(h, s, v),
{
    let v: u16 = v as u16;
    let s: u16 = s as u16;
    let f: u16 = (h as u16 * 2 % 85) * 3;
    assert(s * f <= 255 * 252) by (nonlinear_arith)
        requires
            0 <= s <= 255,
            0 <= f <= 252,
    ;
    assert(s * (255 - f) <= 255 * 255) by (nonlinear_arith)
        requires
            0 <= s <= 255,
            0 <= f <= 252,
    ;
    let fall: u16 = 255 - (s * f) / 255;
    let rise: u16 = 255 - (s * (255 - f)) / 255;
    assert(v * (255 - s) <= 255 * 255 && v * fall <= 255 * 255 && v * rise <= 255 * 255)
        by (nonlinear_arith)
        requires
            0 <= v <= 255,
            0 <= s <= 255,
            0 <= fall <= 255,
            0 <= rise <= 255,
    ;
    let p: u16 = v * (255 - s) / 255;
    let q: u16 = v * fall / 255;
    let t: u16 = v * rise / 255;
    let (v, p, q, t) = (v as u8, p as u8, q as u8, t as u8);
    if h <= 42 {
        (v, t, p)
    } else if h <= 84 {
        (q, v, p)
    } else if h <= 127 {
        (p, v, t)
    } else if h <= 169 {
        (p, q, v)
    } else if h <= 212 {
        (t, p, v)
    } else if h <= 254 {
        (v, p, q)
    } else {
        (v, t, p)
    }
}

/// A number between 0 and 1 on the scale from 0 to 255, rounded down; `None`
/// for a number outside 0 to 1.
pub fn component(x: CellData) -> (r: Option<u8>)
    ensures
        r == if 0 <= x.bits <= ONE_BITS {
            Some(((x.bits * 255) / 0x1_0000) as u8)
        } else {
            None
        },
{
    if x.bits < 0 || x.bits > ONE_BITS {
        None
    } else {
        let scaled: i32 = x.bits * 255 / 0x1_0000;
        Some(scaled as u8)
    }
}

/// Red, green and blue of a color whose hue, saturation and value are
/// numbers between 0 and 1; `None` when one of them is not.
pub fn hsv2rgb_cells(h: CellData, s: CellData, v: CellData) -> (r: Option<(u8, u8, u8)>)
    ensures
        match r {
            Some(rgb) => 0 <= h.bits <= ONE_BITS && 0 <= s.bits <= ONE_BITS && 0 <= v.bits
                <= ONE_BITS && (rgb.0 as int, rgb.1 as int, rgb.2 as int) == hsv2rgb_spec(
                ((h.bits * 255) / 0x1_0000) as u8,
                ((s.bits * 255) / 0x1_0000) as u8,
                ((v.bits * 255) / 0x1_0000) as u8,
            ),
            None => !(0 <= h.bits <= ONE_BITS && 0 <= s.bits <= ONE_BITS && 0 <= v.bits
                <= ONE_BITS),
        },
{
    match (component(h), component(s), component(v)) {
        (Some(h), Some(s), Some(v)) => Some(hsv2rgb(h, s, v)),
        _ => None,
    }
}

} // verus!
