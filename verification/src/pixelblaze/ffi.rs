//! The foreign operations of effect programs.

use crate::forth::cell::{answer_view, cells_view, Cell, CellView, FFIOps, Param, VMError};
use crate::forth::cell_data::{
    abs_bits, add_bits, cordic_sin_bits, div_bits, frac_bits, mul_bits, CellData, ONE_BITS,
    PI2_BITS, TWO_BITS,
};
use crate::pixelblaze::traits::PixelBlazeRuntime;
use crate::forth::util::unpack_str_spec;
use crate::vanillajs::runtime::{arg, arg_spec, text_arg, TEXT_CAPACITY};
use vstd::prelude::*;

verus! {

/// The foreign operations that an effect program can call.
#[derive(Clone, Copy, Debug, PartialEq, Eq, Structural)]
pub enum PixelBlazeFFI {
    ConsoleLog,
    Sin,
    Time,
    Wave,
    Abs,
    Hsv,
    Rgb,
    ExtOkHsl,
}

/// The table of the LED flavor: names with their operations.
pub fn ffi_funcs() -> (table: Vec<(String, PixelBlazeFFI)>)
    ensures
        table@.len() == 8,
        table@[0].0@ == "console_log"@ && table@[0].1 == PixelBlazeFFI::ConsoleLog,
        table@[1].0@ == "sin"@ && table@[1].1 == PixelBlazeFFI::Sin,
        table@[2].0@ == "time"@ && table@[2].1 == PixelBlazeFFI::Time,
        table@[3].0@ == "wave"@ && table@[3].1 == PixelBlazeFFI::Wave,
        table@[4].0@ == "abs"@ && table@[4].1 == PixelBlazeFFI::Abs,
        table@[5].0@ == "hsv"@ && table@[5].1 == PixelBlazeFFI::Hsv,
        table@[6].0@ == "rgb"@ && table@[6].1 == PixelBlazeFFI::Rgb,
        table@[7].0@ == "ext_okhsl"@ && table@[7].1 == PixelBlazeFFI::ExtOkHsl,
{
    let mut table: Vec<(String, PixelBlazeFFI)> = Vec::new();
    table.push(("console_log".to_owned(), PixelBlazeFFI::ConsoleLog));
    table.push(("sin".to_owned(), PixelBlazeFFI::Sin));
    table.push(("time".to_owned(), PixelBlazeFFI::Time));
    table.push(("wave".to_owned(), PixelBlazeFFI::Wave));
    table.push(("abs".to_owned(), PixelBlazeFFI::Abs));
    table.push(("hsv".to_owned(), PixelBlazeFFI::Hsv));
    table.push(("rgb".to_owned(), PixelBlazeFFI::Rgb));
    table.push(("ext_okhsl".to_owned(), PixelBlazeFFI::ExtOkHsl));
    table
}

/// Raw bits of [`lift`]: one plus the sine, halved.
pub open spec fn lift_bits(sine: i32) -> i32 {
    div_bits(add_bits(ONE_BITS, sine), TWO_BITS)
}

/// Raw bits of [`wave`]: the sine of `x` times 2π, lifted.
pub open spec fn wave_bits(x: i32) -> i32 {
    lift_bits(cordic_sin_bits(mul_bits(x, PI2_BITS)))
}

/// Raw bits of [`time`] for the interval with raw bits `interval` at `now`
/// milliseconds: zero for a zero interval, and where the interval times the
/// largest number is zero; else the fractional part of the time, taken
/// modulo 32768 milliseconds, divided by that product.
pub open spec fn time_bits(interval: i32, now: u32) -> i32 {
    if interval == 0 {
        0
    } else {
        let fac = mul_bits(interval, i32::MAX);
        if fac == 0 {
            0
        } else {
            frac_bits(div_bits(((now % 32768) * 0x1_0000) as i32, fac))
        }
    }
}

/// A sawtooth between 0 and 1 that runs with the clock; `interval` sets its
/// pace, and a zero interval gives 0.
pub fn time(interval: CellData, now: u32) -> (r: CellData)
    ensures
        r.bits == time_bits(interval.bits, now),
{
    if interval.bits == 0 {
        return CellData::zero();
    }
    let fac = interval.wrapping_mul(CellData::max_value());
    let now_fixed = CellData::from_num((now % 32768) as i32);
    match now_fixed.checked_div(fac) {
        None => CellData::zero(),
        Some(q) => q.frac(),
    }
}

/// Absolute value.
pub fn abs(val: CellData) -> (r: CellData)
    ensures
        r.bits == abs_bits(val.bits),
{
    val.abs()
}

/// Sine of an angle in radians.
pub fn sin(val: CellData) -> (r: CellData)
    ensures
        r.bits == cordic_sin_bits(val.bits),
{
    val.sin()
}

/// A sine, which lies between -1 and 1, brought between 0 and 1: one is
/// added and the sum halved.
pub fn lift(sine: CellData) -> (r: CellData)
    ensures
        r.bits == lift_bits(sine.bits),
{
    let lifted = CellData::one().wrapping_add(sine);
    match lifted.checked_div(CellData::from_bits(TWO_BITS)) {
        Some(r) => r,
        None => CellData::zero(),
    }
}

/// A sine wave between 0 and 1 with period 1.
pub fn wave(val: CellData) -> (r: CellData)
    ensures
        r.bits == wave_bits(val.bits),
{
    let angle = val.wrapping_mul(CellData::from_bits(PI2_BITS));
    lift(sin(angle))
}

/// The value that a computing operation returns for its parameters, at `now`
/// milliseconds. The argument is the first parameter; an operation that does
/// not compute a value gives `Malformed`.
pub open spec fn value_spec(op: PixelBlazeFFI, params: Seq<CellView<PixelBlazeFFI>>, now: u32) -> Result<
    CellData,
    VMError,
> {
    match arg_spec(params, 0) {
        Err(e) => Err(e),
        Ok(x) => match op {
            PixelBlazeFFI::Sin => Ok(CellData { bits: cordic_sin_bits(x.bits) }),
            PixelBlazeFFI::Time => Ok(CellData { bits: time_bits(x.bits, now) }),
            PixelBlazeFFI::Wave => Ok(CellData { bits: wave_bits(x.bits) }),
            PixelBlazeFFI::Abs => Ok(CellData { bits: abs_bits(x.bits) }),
            _ => Err(VMError::Malformed),
        },
    }
}

/// The value of a computing operation; see [`value_spec`].
pub fn value(op: PixelBlazeFFI, params: &Vec<Cell<PixelBlazeFFI>>, now: u32) -> (r: Result<
    CellData,
    VMError,
>)
    ensures
        r == value_spec(op, cells_view(params@), now),
{
    let x = match arg(params, 0) {
        Err(e) => {
            return Err(e);
        },
        Ok(x) => x,
    };
    match op {
        PixelBlazeFFI::Sin => Ok(sin(x)),
        PixelBlazeFFI::Time => Ok(time(x, now)),
        PixelBlazeFFI::Wave => Ok(wave(x)),
        PixelBlazeFFI::Abs => Ok(abs(x)),
        _ => Err(VMError::Malformed),
    }
}

/// The three components that a color operation hands to the LEDs. The
/// parameters come in the reverse order of the arguments, so the first
/// component is the parameter at 2. With `wrap_first` the first component is
/// reduced to its fractional part.
pub open spec fn color_spec(params: Seq<CellView<PixelBlazeFFI>>, wrap_first: bool) -> Result<
    (CellData, CellData, CellData),
    VMError,
> {
    match arg_spec(params, 2) {
        Err(e) => Err(e),
        Ok(a) => match arg_spec(params, 1) {
            Err(e) => Err(e),
            Ok(b) => match arg_spec(params, 0) {
                Err(e) => Err(e),
                Ok(c) => Ok(
                    (
                        if wrap_first {
                            CellData { bits: frac_bits(a.bits) }
                        } else {
                            a
                        },
                        b,
                        c,
                    ),
                ),
            },
        },
    }
}

/// The components of a color operation; see [`color_spec`].
pub fn color(params: &Vec<Cell<PixelBlazeFFI>>, wrap_first: bool) -> (r: Result<
    (CellData, CellData, CellData),
    VMError,
>)
    ensures
        r == color_spec(cells_view(params@), wrap_first),
{
    let a = match arg(params, 2) {
        Err(e) => {
            return Err(e);
        },
        Ok(a) => a,
    };
    let b = match arg(params, 1) {
        Err(e) => {
            return Err(e);
        },
        Ok(b) => b,
    };
    let c = match arg(params, 0) {
        Err(e) => {
            return Err(e);
        },
        Ok(c) => c,
    };
    if wrap_first {
        Ok((a.frac(), b, c))
    } else {
        Ok((a, b, c))
    }
}

/// Whether an operation computes a value, rather than ask something of the
/// host's log or LEDs.
pub open spec fn computes(op: PixelBlazeFFI) -> bool {
    op == PixelBlazeFFI::Sin || op == PixelBlazeFFI::Time || op == PixelBlazeFFI::Wave || op
        == PixelBlazeFFI::Abs
}

/// What an operation comes to once its parameters are read: an answer for
/// which the host is asked nothing, or what the host is asked.
pub enum Request {
    /// The operation fails with the error; the host is asked nothing.
    Fail(VMError),
    /// The operation returns the number; the host is asked nothing.
    Value(CellData),
    /// The text goes to the host's log, and the operation returns `Null`.
    Log(String),
    /// The host's clock is read, and the operation returns [`time`] of the
    /// interval at that reading.
    Clock(CellData),
    /// The selected pixel gets the color by hue, saturation and value, and
    /// the operation returns `Null`.
    Hsv(CellData, CellData, CellData),
    /// The selected pixel gets the color by red, green and blue, and the
    /// operation returns `Null`.
    Rgb(CellData, CellData, CellData),
    /// The selected pixel gets the color by hue, saturation and lightness
    /// in the OkHSL space, and the operation returns `Null`.
    OkHsl(CellData, CellData, CellData),
}

/// A [`Request`] with its text as a sequence of characters.
pub enum RequestView {
    Fail(VMError),
    Value(CellData),
    Log(Seq<char>),
    Clock(CellData),
    Hsv(CellData, CellData, CellData),
    Rgb(CellData, CellData, CellData),
    OkHsl(CellData, CellData, CellData),
}

impl View for Request {
    type V = RequestView;

    open spec fn view(&self) -> RequestView {
        match self {
            Request::Fail(e) => RequestView::Fail(*e),
            Request::Value(v) => RequestView::Value(*v),
            Request::Log(text) => RequestView::Log(text@),
            Request::Clock(interval) => RequestView::Clock(*interval),
            Request::Hsv(h, s, v) => RequestView::Hsv(*h, *s, *v),
            Request::Rgb(r, g, b) => RequestView::Rgb(*r, *g, *b),
            Request::OkHsl(h, s, l) => RequestView::OkHsl(*h, *s, *l),
        }
    }
}

/// The request of an operation of the LED flavor for its parameters.
/// `ConsoleLog` logs the text of its packed string. `Hsv` and `ExtOkHsl`
/// show their components with the hue reduced to its fractional part, `Rgb`
/// shows its components as they are. `Time` reads the clock for the interval
/// in its argument. The others return their value.
pub open spec fn request_spec(op: PixelBlazeFFI, params: Seq<CellView<PixelBlazeFFI>>) -> RequestView {
    match op {
        PixelBlazeFFI::ConsoleLog => match unpack_str_spec(params, TEXT_CAPACITY as int) {
            Some(text) => RequestView::Log(text),
            None => RequestView::Fail(VMError::Malformed),
        },
        PixelBlazeFFI::Hsv => match color_spec(params, true) {
            Ok((h, s, v)) => RequestView::Hsv(h, s, v),
            Err(e) => RequestView::Fail(e),
        },
        PixelBlazeFFI::Rgb => match color_spec(params, false) {
            Ok((r, g, b)) => RequestView::Rgb(r, g, b),
            Err(e) => RequestView::Fail(e),
        },
        PixelBlazeFFI::ExtOkHsl => match color_spec(params, true) {
            Ok((h, s, l)) => RequestView::OkHsl(h, s, l),
            Err(e) => RequestView::Fail(e),
        },
        PixelBlazeFFI::Time => match arg_spec(params, 0) {
            Ok(interval) => RequestView::Clock(interval),
            Err(e) => RequestView::Fail(e),
        },
        _ => match value_spec(op, params, 0) {
            Ok(v) => RequestView::Value(v),
            Err(e) => RequestView::Fail(e),
        },
    }
}

/// The request of an operation of the LED flavor; see [`request_spec`].
pub fn request(op: PixelBlazeFFI, params: &Vec<Cell<PixelBlazeFFI>>) -> (r: Request)
    ensures
        r@ == request_spec(op, cells_view(params@)),
{
    match op {
        PixelBlazeFFI::ConsoleLog => match text_arg(params) {
            Ok(text) => Request::Log(text),
            Err(_) => Request::Fail(VMError::Malformed),
        },
        PixelBlazeFFI::Hsv => match color(params, true) {
            Ok((h, s, v)) => Request::Hsv(h, s, v),
            Err(e) => Request::Fail(e),
        },
        PixelBlazeFFI::Rgb => match color(params, false) {
            Ok((r, g, b)) => Request::Rgb(r, g, b),
            Err(e) => Request::Fail(e),
        },
        PixelBlazeFFI::ExtOkHsl => match color(params, true) {
            Ok((h, s, l)) => Request::OkHsl(h, s, l),
            Err(e) => Request::Fail(e),
        },
        PixelBlazeFFI::Time => match arg(params, 0) {
            Ok(interval) => Request::Clock(interval),
            Err(e) => Request::Fail(e),
        },
        _ => match value(op, params, 0) {
            Ok(v) => Request::Value(v),
            Err(e) => Request::Fail(e),
        },
    }
}

/// What the operation returns to the program when the request is carried
/// out and the clock, if it is read, shows `now` milliseconds.
pub open spec fn answer_at(q: RequestView, now: u32) -> Result<CellView<PixelBlazeFFI>, VMError> {
    match q {
        RequestView::Fail(e) => Err(e),
        RequestView::Value(v) => Ok(CellView::Val(v)),
        RequestView::Clock(interval) => Ok(
            CellView::Val(CellData { bits: time_bits(interval.bits, now) }),
        ),
        _ => Ok(CellView::Null),
    }
}

/// Whether `r` is an answer to the request: the answer at some reading of
/// the clock where the clock is read, and else the one answer there is.
pub open spec fn answers(q: RequestView, r: Result<CellView<PixelBlazeFFI>, VMError>) -> bool {
    if q is Clock {
        exists|now: u32| r == #[trigger] answer_at(q, now)
    } else {
        r == answer_at(q, 0)
    }
}

/// Carries the request out on the host and returns the operation's answer.
/// The host is asked nothing where the request is an answer already.
pub fn perform<RT: PixelBlazeRuntime>(rt: &mut RT, req: Request) -> (r: Result<
    Cell<PixelBlazeFFI>,
    VMError,
>)
    ensures
        answers(req@, answer_view(r)),
        req is Fail || req is Value ==> *final(rt) == *old(rt),
{
    match req {
        Request::Fail(e) => Err(e),
        Request::Value(v) => Ok(Cell::Val(v)),
        Request::Log(text) => {
            rt.log(text.as_str());
            Ok(Cell::Null)
        },
        Request::Clock(interval) => {
            let now = rt.time_millis();
            let r = Ok(Cell::Val(time(interval, now)));
            assert(answer_view(r) == answer_at(req@, now));
            r
        },
        Request::Hsv(h, s, v) => {
            rt.led_hsv(h, s, v);
            Ok(Cell::Null)
        },
        Request::Rgb(r, g, b) => {
            rt.led_rgb(r, g, b);
            Ok(Cell::Null)
        },
        Request::OkHsl(h, s, l) => {
            rt.ext_led_okhsl(h, s, l);
            Ok(Cell::Null)
        },
    }
}

/// Whether `r` is what an operation of the LED flavor returns for its
/// parameters: an answer to its request. The operations that ask something
/// of the host's log or LEDs return `Null` when their parameters are right;
/// those that compute return their value, which for `Time` is the value at
/// some reading of the clock.
pub open spec fn dispatch_result(
    op: PixelBlazeFFI,
    params: Seq<CellView<PixelBlazeFFI>>,
    r: Result<Cell<PixelBlazeFFI>, VMError>,
) -> bool {
    answers(request_spec(op, params), answer_view(r))
}

impl<RT: PixelBlazeRuntime> FFIOps<RT> for PixelBlazeFFI {
    open spec fn call_info_spec(&self) -> Seq<Param> {
        match self {
            PixelBlazeFFI::ConsoleLog => seq![Param::DynPacked],
            PixelBlazeFFI::Hsv => seq![Param::Normal, Param::Normal, Param::Normal],
            PixelBlazeFFI::Rgb => seq![Param::Normal, Param::Normal, Param::Normal],
            PixelBlazeFFI::ExtOkHsl => seq![Param::Normal, Param::Normal, Param::Normal],
            _ => seq![Param::Normal],
        }
    }

    open spec fn allows(&self, params: Seq<CellView<Self>>, answer: Result<CellView<Self>, VMError>) -> bool {
        answers(request_spec(*self, params), answer)
    }

    fn call_info(&self) -> (info: Vec<Param>) {
        match self {
            PixelBlazeFFI::ConsoleLog => vec![Param::DynPacked],
            PixelBlazeFFI::Hsv => vec![Param::Normal, Param::Normal, Param::Normal],
            PixelBlazeFFI::Rgb => vec![Param::Normal, Param::Normal, Param::Normal],
            PixelBlazeFFI::ExtOkHsl => vec![Param::Normal, Param::Normal, Param::Normal],
            _ => vec![Param::Normal],
        }
    }

    /// Carries out the operation's request for these parameters; see
    /// [`request_spec`] for what is asked of the host and [`answer_at`] for
    /// what is returned.
    fn dispatch(&self, rt: &mut RT, params: &Vec<Cell<Self>>) -> (r: Result<Cell<Self>, VMError>)
        ensures
            dispatch_result(*self, cells_view(params@), r),
            r is Err || computes(*self) && *self != PixelBlazeFFI::Time ==> *final(rt) == *old(
                rt,
            ),
    {
        perform(rt, request(*self, params))
    }
}

} // verus!
