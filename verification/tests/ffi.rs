use fixed::types::I16F16;
use trenchcoat::forth::util::pack;
use trenchcoat::forth::vm::{Cell, CellData, FFIError, FFIOps, Op, Param, VMError, VM};
use trenchcoat::pixelblaze::ffi::{abs, color, ffi_funcs, lift, sin, time, value, wave, PixelBlazeFFI};
use trenchcoat::pixelblaze::ffi as led;
use trenchcoat::pixelblaze::runtime::ConsoleRuntime;
use trenchcoat::vanillajs::runtime as plain;
use trenchcoat::pixelblaze::traits::Peripherals;
use trenchcoat::vanillajs::runtime::{arg, math_pow, math_pow_args, text_arg, VanillaJSFFI, VanillaJSRuntime};

fn from_f64(x: f64) -> CellData {
    CellData::from_bits(I16F16::from_num(x).to_bits())
}

fn to_f64(x: CellData) -> f64 {
    I16F16::from_bits(x.to_bits()).to_num::<f64>()
}

fn assert_similar(expected: f64, actual: CellData, decimals: u8) {
    let fac = 10f64.powf(decimals as _);
    let actual = (to_f64(actual) * fac).round() as i32;
    let expected = (expected * fac).round() as i32;
    assert_eq!(actual, expected);
}

fn vm() -> VM<PixelBlazeFFI, ConsoleRuntime> {
    VM::new_empty(ConsoleRuntime::default())
}

fn check_wave() {
    let decimals = 2;
    assert_similar(0.5, wave(from_f64(0.0)), decimals);
    assert_similar(1.0, wave(from_f64(0.25)), decimals);
    assert_similar(0.5, wave(from_f64(0.5)), decimals);
    assert_similar(0.0, wave(from_f64(0.75)), decimals);
}

fn check_abs() {
    let mut vm = vm();
    vm.push(Cell::val(-5));
    vm.push(Cell::Op(Op::FFI(PixelBlazeFFI::Abs)));
    assert_eq!(vm.run(), Ok(()));
    assert_eq!(&[Cell::val(5)], vm.return_stack());
    assert!(vm.stack().is_empty());
}

fn check_sin() {
    let mut vm = vm();
    let param = 0.1f64;
    vm.push(Cell::Val(from_f64(param)));
    vm.push(Cell::Op(Op::FFI(PixelBlazeFFI::Sin)));
    assert_eq!(vm.run(), Ok(()));
    let precise: f64 = param.sin();
    let approximate = vm.pop_return().unwrap().checked_val().unwrap();
    assert_similar(precise, approximate, 1);
}

#[test]
fn ffi_test_wave() {
    check_wave();
}

#[test]
fn ffi_test_abs() {
    check_abs();
}

#[test]
fn ffi_test_sin() {
    check_sin();
}

#[test]
fn funcs_test_wave() {
    check_wave();
}

#[test]
fn funcs_test_abs() {
    check_abs();
}

#[test]
fn funcs_test_sin() {
    check_sin();
}

#[test]
fn pixelblaze_test_wave() {
    check_wave();
}

#[test]
fn wave_is_one_plus_sine_halved() {
    for &bits in [0, 0x4000, 0x8000, 0xc000, 12345, -40000].iter() {
        let x = I16F16::from_bits(bits);
        let pi2 = "6.283185307179586".parse::<I16F16>().unwrap();
        let expected = I16F16::ONE.wrapping_add(cordic::sin(x.wrapping_mul(pi2))).wrapping_div(I16F16::from_num(2));
        assert_eq!(wave(CellData::from_bits(bits)).to_bits(), expected.to_bits());
    }
}

#[test]
fn time_runs_with_the_clock() {
    assert_eq!(time(CellData::zero(), 1234), CellData::zero());
    let interval = from_f64(0.1);
    let fac = I16F16::from_bits(interval.to_bits()).wrapping_mul(I16F16::MAX);
    for &now in [0u32, 1, 500, 32767, 32768, 40000, u32::MAX].iter() {
        let expected = I16F16::from_num(now % 32768).wrapping_div(fac).frac();
        assert_eq!(time(interval, now).to_bits(), expected.to_bits());
        let t = time(interval, now);
        assert!(0 <= t.to_bits() && t.to_bits() < 65536);
    }
    assert_eq!(time(from_f64(0.1), 1000).to_bits(), 19998);
}

#[test]
fn abs_and_sin() {
    assert_eq!(abs(CellData::from_num(-5)), CellData::from_num(5));
    assert_eq!(abs(CellData::from_num(5)), CellData::from_num(5));
    assert_eq!(sin(from_f64(0.1)).to_bits(), cordic::sin(I16F16::from_num(0.1)).to_bits());
}

#[test]
fn value_of_computing_operations() {
    let params = vec![Cell::val(-2)];
    assert_eq!(value(PixelBlazeFFI::Abs, &params, 0), Ok(CellData::from_num(2)));
    assert_eq!(value(PixelBlazeFFI::Time, &vec![Cell::Val(from_f64(0.1))], 1000), Ok(CellData::from_bits(19998)));
    assert_eq!(value(PixelBlazeFFI::Hsv, &params, 0), Err(VMError::Malformed));
    assert_eq!(value(PixelBlazeFFI::Abs, &vec![], 0), Err(VMError::FFI(FFIError::NumArgs)));
    assert_eq!(value(PixelBlazeFFI::Abs, &vec![Cell::Null], 0), Err(VMError::TypeCoercion));
}

#[test]
fn color_components_come_in_argument_order() {
    let params: Vec<Cell<PixelBlazeFFI>> = vec![
        Cell::Val(from_f64(0.25)),
        Cell::Val(from_f64(0.5)),
        Cell::Val(from_f64(1.75)),
    ];
    assert_eq!(color(&params, true), Ok((from_f64(0.75), from_f64(0.5), from_f64(0.25))));
    assert_eq!(color(&params, false), Ok((from_f64(1.75), from_f64(0.5), from_f64(0.25))));
    assert_eq!(color(&params[..2].to_vec(), false), Err(VMError::FFI(FFIError::NumArgs)));
    let bad: Vec<Cell<PixelBlazeFFI>> = vec![Cell::val(1), Cell::Raw(1), Cell::val(1)];
    assert_eq!(color(&bad, false), Err(VMError::TypeCoercion));
}

#[test]
fn call_info() {
    let info = |f: PixelBlazeFFI| <PixelBlazeFFI as FFIOps<ConsoleRuntime>>::call_info(&f);
    assert_eq!(info(PixelBlazeFFI::ConsoleLog), vec![Param::DynPacked]);
    assert_eq!(info(PixelBlazeFFI::Hsv), vec![Param::Normal; 3]);
    assert_eq!(info(PixelBlazeFFI::Rgb), vec![Param::Normal; 3]);
    assert_eq!(info(PixelBlazeFFI::ExtOkHsl), vec![Param::Normal; 3]);
    for f in [PixelBlazeFFI::Sin, PixelBlazeFFI::Time, PixelBlazeFFI::Wave, PixelBlazeFFI::Abs] {
        assert_eq!(info(f), vec![Param::Normal]);
    }
    let info = |f: VanillaJSFFI| <VanillaJSFFI as FFIOps<ConsoleRuntime>>::call_info(&f);
    assert_eq!(info(VanillaJSFFI::ConsoleLog), vec![Param::DynPacked]);
    assert_eq!(info(VanillaJSFFI::MathPow), vec![Param::Normal, Param::Normal]);
}

#[test]
fn tables() {
    let names: Vec<String> = ffi_funcs().into_iter().map(|(n, _)| n).collect();
    assert_eq!(names, ["console_log", "sin", "time", "wave", "abs", "hsv", "rgb", "ext_okhsl"]);
    assert_eq!(
        trenchcoat::vanillajs::ffi::ffi_funcs(),
        vec![("console_log".to_string(), VanillaJSFFI::ConsoleLog), ("math_pow".to_string(), VanillaJSFFI::MathPow)]
    );
    assert_eq!(trenchcoat::py::ffi::ffi_funcs(), vec![("print".to_string(), PixelBlazeFFI::ConsoleLog)]);
}

#[test]
fn math_pow_values() {
    let n = |x: i32| CellData::from_num(x);
    assert_eq!(math_pow(n(2), n(5)), Ok(n(32)));
    assert_eq!(math_pow(n(-3), n(3)), Ok(n(-27)));
    assert_eq!(math_pow(n(7), n(0)), Ok(n(1)));
    assert_eq!(math_pow(from_f64(2.9), from_f64(3.9)), Ok(n(8)));
    assert_eq!(math_pow(n(2), n(15)), Err(VMError::Overflow));
    assert_eq!(math_pow(n(2), n(40)), Err(VMError::Overflow));
    assert_eq!(math_pow(n(1), n(-1)), Ok(n(1)));
    assert_eq!(math_pow(n(2), n(-1)), Err(VMError::Overflow));
    let params: Vec<Cell<VanillaJSFFI>> = vec![Cell::val(2), Cell::val(5)];
    assert_eq!(math_pow_args(&params), Ok(n(32)));
    assert_eq!(math_pow_args(&params[..1].to_vec()), Err(VMError::FFI(FFIError::NumArgs)));
    assert_eq!(math_pow_args::<VanillaJSFFI>(&vec![Cell::val(2), Cell::Null]), Err(VMError::TypeCoercion));
    assert_eq!(arg(&params, 1), Ok(n(5)));
    assert_eq!(arg(&params, 2), Err(VMError::FFI(FFIError::NumArgs)));
}

#[test]
fn text_arguments() {
    let params: Vec<Cell<VanillaJSFFI>> = pack("hello".as_bytes());
    assert_eq!(text_arg(&params), Ok("hello".to_string()));
    let long: Vec<Cell<VanillaJSFFI>> = pack(&[b'a'; 33]);
    assert_eq!(text_arg(&long), Err(VMError::Malformed));
    assert_eq!(text_arg::<VanillaJSFFI>(&vec![]), Err(VMError::Malformed));
}

#[test]
fn console_runtime() {
    let mut rt = ConsoleRuntime::new(100);
    assert_eq!(rt, ConsoleRuntime { time_ms: 0, dt: 100, led_idx: 0 });
    assert_eq!(ConsoleRuntime::default(), rt);
    rt.set_led_idx(3);
    assert_eq!(rt.led_idx, 3);
    rt.led_commit();
    assert_eq!(rt.time_millis(), 100);
    let mut back = ConsoleRuntime::new(-1);
    back.led_commit();
    assert_eq!(back.time_millis(), u32::MAX);
    back.log("nothing happens");
    back.led_rgb(CellData::zero(), CellData::zero(), CellData::zero());
    assert_eq!(back.time_millis(), u32::MAX);
}

#[test]
fn lift_halves_one_plus_the_sine() {
    assert_eq!(lift(CellData::from_bits(0)).to_bits(), 0x8000);
    assert_eq!(lift(CellData::from_bits(0x1_0000)).to_bits(), 0x1_0000);
    assert_eq!(lift(CellData::from_bits(-0x1_0000)).to_bits(), 0);
    assert_eq!(lift(CellData::from_bits(0x4000)).to_bits(), 0xa000);
    assert_eq!(lift(CellData::from_bits(i32::MAX)).to_bits(), i32::MIN.wrapping_add(0xffff) / 2);
}

#[test]
fn requests_of_the_plain_flavor() {
    match plain::request(VanillaJSFFI::ConsoleLog, &pack("hello".as_bytes())) {
        plain::Request::Log(text) => assert_eq!(text, "hello"),
        _ => panic!("a text is logged"),
    }
    match plain::request(VanillaJSFFI::ConsoleLog, &vec![Cell::val(1)]) {
        plain::Request::Fail(e) => assert_eq!(e, VMError::Malformed),
        _ => panic!("no text, no request"),
    }
    match plain::request(VanillaJSFFI::MathPow, &vec![Cell::val(2), Cell::val(10)]) {
        plain::Request::Value(v) => assert_eq!(v, CellData::from_num(1024)),
        _ => panic!("a power is a value"),
    }
    match plain::request(VanillaJSFFI::MathPow, &vec![Cell::val(2)]) {
        plain::Request::Fail(e) => assert_eq!(e, VMError::FFI(FFIError::NumArgs)),
        _ => panic!("one argument is too few"),
    }
    match plain::log_request::<VanillaJSFFI>(&pack("x".as_bytes())) {
        plain::Request::Log(text) => assert_eq!(text, "x"),
        _ => panic!("a text is logged"),
    }
    let mut rt = Texts { lines: Vec::new() };
    assert_eq!(plain::perform::<_, VanillaJSFFI>(&mut rt, plain::Request::Log("one".to_string())), Ok(Cell::Null));
    assert_eq!(plain::perform::<_, VanillaJSFFI>(&mut rt, plain::Request::Value(CellData::from_num(3))), Ok(Cell::val(3)));
    assert_eq!(plain::perform::<_, VanillaJSFFI>(&mut rt, plain::Request::Fail(VMError::Overflow)), Err(VMError::Overflow));
    assert_eq!(rt.lines, vec!["one".to_string()]);
    assert_eq!(VanillaJSFFI::ConsoleLog.dispatch(&mut rt, &pack("two".as_bytes())), Ok(Cell::Null));
    assert_eq!(rt.lines, vec!["one".to_string(), "two".to_string()]);
}

struct Texts {
    lines: Vec<String>,
}

impl VanillaJSRuntime for Texts {
    fn time_millis(&mut self) -> u32 {
        250
    }

    fn log(&mut self, s: &str) {
        self.lines.push(s.to_string());
    }
}

impl Peripherals for Texts {
    fn set_led_idx(&mut self, idx: usize) {
        self.lines.push(format!("idx {idx}"));
    }

    fn led_hsv(&mut self, h: CellData, s: CellData, v: CellData) {
        self.lines.push(format!("hsv {} {} {}", h.to_bits(), s.to_bits(), v.to_bits()));
    }

    fn led_rgb(&mut self, r: CellData, g: CellData, b: CellData) {
        self.lines.push(format!("rgb {} {} {}", r.to_bits(), g.to_bits(), b.to_bits()));
    }

    fn ext_led_okhsl(&mut self, h: CellData, s: CellData, l: CellData) {
        self.lines.push(format!("okhsl {} {} {}", h.to_bits(), s.to_bits(), l.to_bits()));
    }
}

#[test]
fn requests_of_the_led_flavor() {
    let half = CellData::from_bits(0x8000);
    let colors: Vec<Cell<PixelBlazeFFI>> =
        vec![Cell::Val(CellData::from_num(3)), Cell::Val(half), Cell::Val(CellData::from_bits(0x1_4000))];
    match led::request(PixelBlazeFFI::Hsv, &colors) {
        led::Request::Hsv(h, s, v) => assert_eq!((h.to_bits(), s.to_bits(), v.to_bits()), (0x4000, 0x8000, 0x3_0000)),
        _ => panic!("a color is shown"),
    }
    match led::request(PixelBlazeFFI::Rgb, &colors) {
        led::Request::Rgb(r, g, b) => assert_eq!((r.to_bits(), g.to_bits(), b.to_bits()), (0x1_4000, 0x8000, 0x3_0000)),
        _ => panic!("a color is shown"),
    }
    match led::request(PixelBlazeFFI::ExtOkHsl, &colors) {
        led::Request::OkHsl(h, s, l) => assert_eq!((h.to_bits(), s.to_bits(), l.to_bits()), (0x4000, 0x8000, 0x3_0000)),
        _ => panic!("a color is shown"),
    }
    match led::request(PixelBlazeFFI::Rgb, &vec![Cell::val(1)]) {
        led::Request::Fail(e) => assert_eq!(e, VMError::FFI(FFIError::NumArgs)),
        _ => panic!("one component is too few"),
    }
    match led::request(PixelBlazeFFI::ConsoleLog, &pack("hi".as_bytes())) {
        led::Request::Log(text) => assert_eq!(text, "hi"),
        _ => panic!("a text is logged"),
    }
    match led::request(PixelBlazeFFI::Time, &vec![Cell::Val(half)]) {
        led::Request::Clock(interval) => assert_eq!(interval, half),
        _ => panic!("the clock is read"),
    }
    match led::request(PixelBlazeFFI::Time, &vec![]) {
        led::Request::Fail(e) => assert_eq!(e, VMError::FFI(FFIError::NumArgs)),
        _ => panic!("no interval, no reading"),
    }
    match led::request(PixelBlazeFFI::Abs, &vec![Cell::val(-2)]) {
        led::Request::Value(v) => assert_eq!(v, CellData::from_num(2)),
        _ => panic!("a value is computed"),
    }
    let mut rt = Texts { lines: Vec::new() };
    assert_eq!(led::perform(&mut rt, led::Request::Rgb(half, half, half)), Ok(Cell::Null));
    assert_eq!(led::perform(&mut rt, led::Request::Hsv(half, half, half)), Ok(Cell::Null));
    assert_eq!(led::perform(&mut rt, led::Request::OkHsl(half, half, half)), Ok(Cell::Null));
    assert_eq!(led::perform(&mut rt, led::Request::Log("seen".to_string())), Ok(Cell::Null));
    assert_eq!(led::perform(&mut rt, led::Request::Value(half)), Ok(Cell::Val(half)));
    assert_eq!(led::perform(&mut rt, led::Request::Fail(VMError::Malformed)), Err(VMError::Malformed));
    assert_eq!(led::perform(&mut rt, led::Request::Clock(half)), Ok(Cell::Val(time(half, 250))));
    assert_eq!(
        rt.lines,
        vec!["rgb 32768 32768 32768", "hsv 32768 32768 32768", "okhsl 32768 32768 32768", "seen"]
    );
    assert_eq!(PixelBlazeFFI::Rgb.dispatch(&mut rt, &colors), Ok(Cell::Null));
    assert_eq!(rt.lines.last().map(|s| s.as_str()), Some("rgb 81920 32768 196608"));
}
