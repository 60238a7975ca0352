//! The base runtime of a host, and the foreign operations of the plain
//! flavor.

use crate::forth::cell::{
    answer_view, cells_view, try_val_spec, Cell, CellView, FFIError, FFIOps, Param, VMError,
};
use crate::forth::cell_data::{floor_bits, int_bits, CellData};
use crate::forth::util::{unpack_str, unpack_str_spec, MockRuntime};
use vstd::arithmetic::power::pow;
use vstd::prelude::*;

verus! {

/// Longest text, in bytes, that a foreign operation takes as a packed string.
pub const TEXT_CAPACITY: usize = 32;

/// What every host offers: a clock and a log.
pub trait VanillaJSRuntime {
    /// Milliseconds on a clock that only moves forward.
    fn time_millis(&mut self) -> u32;

    /// Takes a message.
    fn log(&mut self, s: &str);
}

impl VanillaJSRuntime for MockRuntime {
    fn time_millis(&mut self) -> (t: u32)
        ensures
            t == 0,
    {
        0
    }

    fn log(&mut self, s: &str) {
    }
}

/// The foreign operations of the plain flavor.
#[derive(Clone, Copy, Debug, PartialEq, Eq, Structural)]
pub enum VanillaJSFFI {
    ConsoleLog,
    MathPow,
}

/// The parameter at `i` as a number: `NumArgs` when there is no such
/// parameter, `TypeCoercion` when it is no number.
pub open spec fn arg_spec<FFI>(params: Seq<CellView<FFI>>, i: int) -> Result<CellData, VMError> {
    if 0 <= i < params.len() {
        try_val_spec(params[i])
    } else {
        Err(VMError::FFI(FFIError::NumArgs))
    }
}

/// The parameter at `i` as a number; see [`arg_spec`].
pub fn arg<FFI>(params: &Vec<Cell<FFI>>, i: usize) -> (r: Result<CellData, VMError>)
    ensures
        r == arg_spec(cells_view(params@), i as int),
{
    if i < params.len() {
        params[i].try_val()
    } else {
        Err(VMError::FFI(FFIError::NumArgs))
    }
}

/// The text that a packed-string parameter holds; `Malformed` when the
/// parameters are no packed string of at most 32 bytes of valid UTF-8.
pub fn text_arg<FFI>(params: &Vec<Cell<FFI>>) -> (r: Result<String, VMError>)
    ensures
        match unpack_str_spec(cells_view(params@), TEXT_CAPACITY as int) {
            Some(text) => r is Ok && r->Ok_0@ == text,
            None => r == Err::<String, VMError>(VMError::Malformed),
        },
{
    match unpack_str(params.as_slice(), TEXT_CAPACITY) {
        Some(text) => Ok(text),
        None => Err(VMError::Malformed),
    }
}

/// `i32::checked_pow` of the standard library: the power, or `None` when it
/// does not fit in an `i32`.
#[verifier::external_body]
fn i32_checked_pow(base: i32, exp: u32) -> (r: Option<i32>)
    ensures
        r == if i32::MIN <= pow(base as int, exp as nat) <= i32::MAX {
            Some(pow(base as int, exp as nat) as i32)
        } else {
            None
        },
{
    base.checked_pow(exp)
}

/// The exponent that [`math_pow`] takes from an integer: a negative one
/// counts as the unsigned number with the same 32 bits.
pub open spec fn exponent_of(e: i32) -> nat {
    if e < 0 {
        (e + 0x1_0000_0000) as nat
    } else {
        e as nat
    }
}

/// What [`math_pow`] returns: the integer part of `base` to the power of the
/// integer part of `exp`, as a number; `Overflow` when that is not
/// representable.
pub open spec fn math_pow_spec(base: CellData, exp: CellData) -> Result<CellData, VMError> {
    let p = pow(floor_bits(base.bits) as int, exponent_of(floor_bits(exp.bits)));
    if i32::MIN <= p <= i32::MAX {
        match int_bits(p as i32) {
            Some(bits) => Ok(CellData { bits }),
            None => Err(VMError::Overflow),
        }
    } else {
        Err(VMError::Overflow)
    }
}

/// Integer power of the integer parts.
pub fn math_pow(base: CellData, exp: CellData) -> (r: Result<CellData, VMError>)
    ensures
        r == math_pow_spec(base, exp),
{
    let b = base.to_num();
    let e = exp.to_num();
    let e: u32 = if e < 0 {
        ((e - i32::MIN) as u32) + 0x8000_0000
    } else {
        e as u32
    };
    match i32_checked_pow(b, e) {
        None => Err(VMError::Overflow),
        Some(p) => match CellData::checked_from_num(p) {
            Some(v) => Ok(v),
            None => Err(VMError::Overflow),
        },
    }
}

/// What `MathPow` returns for its parameters: it wants exactly two, both
/// numbers, and raises the first to the power of the second.
pub open spec fn math_pow_call<FFI>(params: Seq<CellView<FFI>>) -> Result<CellData, VMError> {
    if params.len() != 2 {
        Err(VMError::FFI(FFIError::NumArgs))
    } else {
        match arg_spec(params, 0) {
            Err(e) => Err(e),
            Ok(base) => match arg_spec(params, 1) {
                Err(e) => Err(e),
                Ok(exp) => math_pow_spec(base, exp),
            },
        }
    }
}

/// The value of `MathPow` for its parameters; see [`math_pow_call`].
pub fn math_pow_args<FFI>(params: &Vec<Cell<FFI>>) -> (r: Result<CellData, VMError>)
    ensures
        r == math_pow_call(cells_view(params@)),
{
    if params.len() != 2 {
        return Err(VMError::FFI(FFIError::NumArgs));
    }
    let base = match arg(params, 0) {
        Err(e) => {
            return Err(e);
        },
        Ok(v) => v,
    };
    let exp = match arg(params, 1) {
        Err(e) => {
            return Err(e);
        },
        Ok(v) => v,
    };
    math_pow(base, exp)
}

/// What an operation comes to once its parameters are read: an answer for
/// which the host is asked nothing, or a message for the host's log.
pub enum Request {
    /// The operation fails with the error; the host is asked nothing.
    Fail(VMError),
    /// The operation returns the number; the host is asked nothing.
    Value(CellData),
    /// The text goes to the host's log, and the operation returns `Null`.
    Log(String),
}

/// A [`Request`] with its text as a sequence of characters.
pub enum RequestView {
    Fail(VMError),
    Value(CellData),
    Log(Seq<char>),
}

impl View for Request {
    type V = RequestView;

    open spec fn view(&self) -> RequestView {
        match self {
            Request::Fail(e) => RequestView::Fail(*e),
            Request::Value(v) => RequestView::Value(*v),
            Request::Log(text) => RequestView::Log(text@),
        }
    }
}

/// What the operation returns to the program when the request is carried
/// out.
pub open spec fn answer_of<FFI>(q: RequestView) -> Result<Cell<FFI>, VMError> {
    match q {
        RequestView::Fail(e) => Err(e),
        RequestView::Value(v) => Ok(Cell::Val(v)),
        RequestView::Log(_) => Ok(Cell::Null),
    }
}

/// The request of an operation that logs: the text that the parameters
/// hold as a packed string, or `Malformed` when they hold none.
pub open spec fn log_request_spec<FFI>(params: Seq<CellView<FFI>>) -> RequestView {
    match unpack_str_spec(params, TEXT_CAPACITY as int) {
        Some(text) => RequestView::Log(text),
        None => RequestView::Fail(VMError::Malformed),
    }
}

/// The request of an operation that logs; see [`log_request_spec`].
pub fn log_request<FFI>(params: &Vec<Cell<FFI>>) -> (r: Request)
    ensures
        r@ == log_request_spec(cells_view(params@)),
{
    match text_arg(params) {
        Err(_) => Request::Fail(VMError::Malformed),
        Ok(text) => Request::Log(text),
    }
}

/// The request of an operation of the plain flavor for its parameters:
/// `ConsoleLog` logs the text of its packed string, `MathPow` returns the
/// power.
pub open spec fn request_spec(op: VanillaJSFFI, params: Seq<CellView<VanillaJSFFI>>) -> RequestView {
    match op {
        VanillaJSFFI::ConsoleLog => log_request_spec(params),
        VanillaJSFFI::MathPow => match math_pow_call(params) {
            Ok(v) => RequestView::Value(v),
            Err(e) => RequestView::Fail(e),
        },
    }
}

/// The request of an operation of the plain flavor; see [`request_spec`].
pub fn request(op: VanillaJSFFI, params: &Vec<Cell<VanillaJSFFI>>) -> (r: Request)
    ensures
        r@ == request_spec(op, cells_view(params@)),
{
    match op {
        VanillaJSFFI::ConsoleLog => log_request(params),
        VanillaJSFFI::MathPow => match math_pow_args(params) {
            Ok(v) => Request::Value(v),
            Err(e) => Request::Fail(e),
        },
    }
}

/// Carries the request out on the host and returns the operation's answer.
/// Only a message for the log reaches the host.
pub fn perform<RT: VanillaJSRuntime, FFI>(rt: &mut RT, req: Request) -> (r: Result<Cell<FFI>, VMError>)
    ensures
        r == answer_of::<FFI>(req@),
        !(req is Log) ==> *final(rt) == *old(rt),
{
    match req {
        Request::Fail(e) => Err(e),
        Request::Value(v) => Ok(Cell::Val(v)),
        Request::Log(text) => {
            rt.log(text.as_str());
            Ok(Cell::Null)
        },
    }
}

/// What an operation of the plain flavor returns for its parameters:
/// `ConsoleLog` returns `Null` when its parameters are a text, `MathPow`
/// the power.
pub open spec fn dispatch_result(op: VanillaJSFFI, params: Seq<CellView<VanillaJSFFI>>) -> Result<
    Cell<VanillaJSFFI>,
    VMError,
> {
    answer_of(request_spec(op, params))
}

impl<RT: VanillaJSRuntime> FFIOps<RT> for VanillaJSFFI {
    open spec fn call_info_spec(&self) -> Seq<Param> {
        match self {
            VanillaJSFFI::ConsoleLog => seq![Param::DynPacked],
            VanillaJSFFI::MathPow => seq![Param::Normal, Param::Normal],
        }
    }

    open spec fn allows(&self, params: Seq<CellView<Self>>, answer: Result<CellView<Self>, VMError>) -> bool {
        answer == answer_view(dispatch_result(*self, params))
    }

    fn call_info(&self) -> (info: Vec<Param>) {
        match self {
            VanillaJSFFI::ConsoleLog => vec![Param::DynPacked],
            VanillaJSFFI::MathPow => vec![Param::Normal, Param::Normal],
        }
    }

    /// Carries out the operation's request for these parameters:
    /// `ConsoleLog` hands the text of its packed string to the runtime's log
    /// and returns `Null`; `MathPow` returns the power.
    fn dispatch(&self, rt: &mut RT, params: &Vec<Cell<Self>>) -> (r: Result<Cell<Self>, VMError>)
        ensures
            r == dispatch_result(*self, cells_view(params@)),
            r is Err || *self == VanillaJSFFI::MathPow ==> *final(rt) == *old(rt),
    {
        perform(rt, request(*self, params))
    }
}

} // verus!
