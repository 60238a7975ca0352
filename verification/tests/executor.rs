use trenchcoat::forth::compiler::{compile, BinaryOp, Callee, Expr, FnDecl, Lit, Stmt};
use trenchcoat::forth::vm::{Cell, CellData, Op, VMError, VM};
use trenchcoat::pixelblaze::executor::{announce, delta_since, invoke, Executor};
use trenchcoat::pixelblaze::ffi::{ffi_funcs, PixelBlazeFFI};
use trenchcoat::pixelblaze::traits::Peripherals;
use trenchcoat::vanillajs::runtime::VanillaJSRuntime;

#[derive(Debug, Clone, PartialEq)]
enum Event {
    Begin,
    Index(usize),
    Hsv(i32, i32, i32),
    Rgb(i32, i32, i32),
    OkHsl(i32, i32, i32),
    Commit,
    Log(String),
}

struct Recorder {
    events: Vec<Event>,
    now: u32,
}

impl Recorder {
    fn new() -> Self {
        Recorder { events: Vec::new(), now: 0 }
    }
}

impl VanillaJSRuntime for Recorder {
    fn time_millis(&mut self) -> u32 {
        self.now
    }

    fn log(&mut self, s: &str) {
        self.events.push(Event::Log(s.to_string()));
    }
}

impl Peripherals for Recorder {
    fn led_begin(&mut self) {
        self.events.push(Event::Begin);
    }

    fn set_led_idx(&mut self, idx: usize) {
        self.events.push(Event::Index(idx));
    }

    fn led_hsv(&mut self, h: CellData, s: CellData, v: CellData) {
        self.events.push(Event::Hsv(h.to_bits(), s.to_bits(), v.to_bits()));
    }

    fn led_rgb(&mut self, r: CellData, g: CellData, b: CellData) {
        self.events.push(Event::Rgb(r.to_bits(), g.to_bits(), b.to_bits()));
    }

    fn ext_led_okhsl(&mut self, h: CellData, s: CellData, l: CellData) {
        self.events.push(Event::OkHsl(h.to_bits(), s.to_bits(), l.to_bits()));
    }

    fn led_commit(&mut self) {
        self.events.push(Event::Commit);
    }
}

fn num(n: i32) -> Expr {
    Expr::Lit(Lit::Num(CellData::from_num(n)))
}

fn ident(name: &str) -> Expr {
    Expr::Ident(name.to_string())
}

fn call(name: &str, args: Vec<Expr>) -> Expr {
    Expr::Call(Callee::Ident(name.to_string()), args)
}

fn program() -> Vec<Stmt> {
    vec![
        Stmt::Fn(FnDecl {
            name: "beforeRender".to_string(),
            params: vec!["delta".to_string()],
            body: vec![Stmt::Expr(Expr::Assign("t".to_string(), Box::new(ident("delta"))))],
        }),
        Stmt::Fn(FnDecl {
            name: "render".to_string(),
            params: vec!["i".to_string()],
            body: vec![Stmt::Expr(call(
                "rgb",
                vec![Expr::Bin(BinaryOp::Div, Box::new(ident("i")), Box::new(num(4))), num(0), num(0)],
            ))],
        }),
    ]
}

fn executor(pixels: usize) -> Executor<PixelBlazeFFI, Recorder> {
    let vm = compile(&program(), ffi_funcs(), Recorder::new()).unwrap();
    Executor::new(vm, pixels)
}

#[test]
fn frame_renders_every_pixel_in_order() {
    let mut ex = executor(4);
    assert_eq!(ex.start(), Ok(()));
    assert_eq!(ex.runtime().unwrap().events, vec![Event::Log("*** VM START ***\n".to_string())]);
    assert_eq!(ex.globals().unwrap().get("pixelCount"), Some(Some(CellData::from_num(4))));
    ex.runtime_mut().unwrap().events.clear();
    ex.runtime_mut().unwrap().now = 10;
    assert_eq!(ex.do_frame(), Ok(()));
    let quarter = |i: i32| Event::Rgb(i * 0x4000, 0, 0);
    assert_eq!(
        ex.runtime().unwrap().events,
        vec![
            Event::Begin,
            Event::Index(0),
            quarter(0),
            Event::Index(1),
            quarter(1),
            Event::Index(2),
            quarter(2),
            Event::Index(3),
            quarter(3),
            Event::Commit,
        ]
    );
    assert_eq!(ex.globals().unwrap().get("t"), Some(Some(CellData::from_num(10))));
    let vm = ex.vm.as_ref().unwrap();
    assert!(vm.stack().is_empty());
    assert!(vm.return_stack().is_empty());
    assert_eq!(vm.locals.len(), 0);
    assert_eq!(ex.last_millis, 10);
    assert_eq!(ex.pixel_count(), 4);
}

#[test]
fn frame_at_passes_the_time_since_the_last_frame() {
    let mut ex = executor(0);
    assert_eq!(ex.frame_at(250), Ok(()));
    assert_eq!(ex.globals().unwrap().get("t"), Some(Some(CellData::from_num(250))));
    assert_eq!(ex.frame_at(100_000), Ok(()));
    assert_eq!(ex.globals().unwrap().get("t"), Some(Some(CellData::from_num(32767))));
    assert_eq!(ex.frame_at(99_999), Ok(()));
    assert_eq!(ex.globals().unwrap().get("t"), Some(Some(CellData::from_num(32767))));
    assert_eq!(ex.last_millis, 99_999);
    assert_eq!(ex.runtime().unwrap().events, vec![Event::Begin, Event::Commit, Event::Begin, Event::Commit, Event::Begin, Event::Commit]);
}

#[test]
fn delta_is_clamped() {
    assert_eq!(delta_since(10, 0), CellData::from_num(10));
    assert_eq!(delta_since(5, 5), CellData::from_num(0));
    assert_eq!(delta_since(40_000, 0), CellData::from_num(32767));
    assert_eq!(delta_since(3, u32::MAX - 1), CellData::from_num(5));
    assert_eq!(delta_since(0, 1), CellData::from_num(32767));
}

#[test]
fn frame_stops_at_the_first_error() {
    let program = vec![Stmt::Fn(FnDecl {
        name: "beforeRender".to_string(),
        params: vec!["delta".to_string()],
        body: vec![],
    })];
    let vm = compile(&program, ffi_funcs(), Recorder::new()).unwrap();
    let mut ex = Executor::new(vm, 3);
    assert_eq!(ex.do_frame(), Err(VMError::FFI(trenchcoat::forth::vm::FFIError::FunctionNotFound)));
    assert_eq!(ex.runtime().unwrap().events, vec![Event::Begin, Event::Index(0)]);
    assert!(ex.vm.is_some());
}

#[test]
fn vanished() {
    let mut ex = executor(1);
    let vm = ex.take_vm();
    assert!(vm.is_some());
    assert!(ex.take_vm().is_none());
    assert_eq!(ex.start(), Err(VMError::Vanished));
    assert_eq!(ex.do_frame(), Err(VMError::Vanished));
    assert_eq!(ex.frame_at(5), Err(VMError::Vanished));
    assert_eq!(ex.on_slider("sliderSpeed", CellData::one()), Err(VMError::Vanished));
    assert!(ex.globals().is_none());
    assert!(ex.runtime().is_none());
    ex.set_var("x", CellData::one());
    ex.set_vm(vm.unwrap());
    assert_eq!(ex.frame_at(5), Ok(()));
    let gone = {
        let mut e = executor(1);
        e.take_vm();
        e
    };
    assert_eq!(gone.exit(), Err(VMError::Vanished));
}

#[test]
fn hot_swap_keeps_the_runtime() {
    let mut ex = executor(2);
    assert_eq!(ex.start(), Ok(()));
    let mut next: VM<PixelBlazeFFI, Recorder> = compile(&program(), ffi_funcs(), Recorder::new()).unwrap();
    next.runtime_mut().now = 77;
    assert_eq!(ex.hot_swap(next), Ok(()));
    let greeting = Event::Log("*** VM START ***\n".to_string());
    assert_eq!(ex.runtime().unwrap().events, vec![greeting.clone(), greeting]);
    assert_eq!(ex.runtime().unwrap().now, 0);
    let by_hand: VM<PixelBlazeFFI, Recorder> = compile(&program(), ffi_funcs(), Recorder::new()).unwrap();
    let mut by_hand = by_hand;
    let old = ex.take_vm().unwrap();
    *by_hand.runtime_mut() = old.dismember();
    ex.set_vm(by_hand);
    assert_eq!(ex.runtime().unwrap().events.len(), 2);
    let mut empty = executor(1);
    empty.take_vm();
    let spare: VM<PixelBlazeFFI, Recorder> = compile(&program(), ffi_funcs(), Recorder::new()).unwrap();
    assert_eq!(empty.hot_swap(spare), Err(VMError::Vanished));
    let spare: VM<PixelBlazeFFI, Recorder> = compile(&program(), ffi_funcs(), Recorder::new()).unwrap();
    assert_eq!(empty.transplant(spare), Err(VMError::Vanished));
    assert!(empty.vm.is_none());
}

#[test]
fn slider_calls_the_function_of_that_name() {
    let program = vec![Stmt::Fn(FnDecl {
        name: "sliderSpeed".to_string(),
        params: vec!["v".to_string()],
        body: vec![Stmt::Expr(Expr::Assign("speed".to_string(), Box::new(ident("v"))))],
    })];
    let vm = compile(&program, ffi_funcs(), Recorder::new()).unwrap();
    let mut ex = Executor::new(vm, 1);
    let half = CellData::from_bits(0x8000);
    assert_eq!(ex.on_slider("sliderSpeed", half), Ok(()));
    assert_eq!(ex.globals().unwrap().get("speed"), Some(Some(half)));
    assert!(ex.vm.as_ref().unwrap().stack().is_empty());
    assert_eq!(ex.on_slider("sliderOther", half), Err(VMError::FFI(trenchcoat::forth::vm::FFIError::FunctionNotFound)));
}

#[test]
fn set_var_assigns_a_global() {
    let mut ex = executor(1);
    ex.set_var("brightness", CellData::from_num(3));
    assert_eq!(ex.globals().unwrap().get("brightness"), Some(Some(CellData::from_num(3))));
}

#[test]
fn start_fails_for_too_many_pixels() {
    let mut ex = executor(40_000);
    ex.runtime_mut().unwrap().now = 9;
    assert_eq!(ex.last_millis, 0);
    assert_eq!(ex.start(), Err(VMError::Overflow));
    assert!(ex.runtime().unwrap().events.is_empty());
    assert_eq!(ex.last_millis, 0);
    let mut ex = executor(32_767);
    ex.runtime_mut().unwrap().now = 9;
    assert_eq!(ex.start(), Ok(()));
    assert_eq!(ex.last_millis, 9);
}

#[test]
fn exit_says_farewell() {
    let vm: VM<PixelBlazeFFI, Recorder> = VM::new_empty(Recorder::new());
    let mut vm = vm;
    assert_eq!(Executor::<PixelBlazeFFI, Recorder>::exit_vm(&mut vm), Ok(()));
    assert_eq!(vm.runtime().events, vec![Event::Log("*** DÖNE! ***".to_string())]);
    assert!(vm.stack().is_empty() && vm.return_stack().is_empty());
    let ex = executor(1);
    assert_eq!(ex.exit(), Ok(()));
}

#[test]
fn announce_and_invoke() {
    let mut vm: VM<PixelBlazeFFI, Recorder> = VM::new_empty(Recorder::new());
    assert_eq!(announce(&mut vm, "hi"), Ok(()));
    assert_eq!(
        vm.stack(),
        &[
            Cell::Op(Op::PopRet),
            Cell::Raw(i32::from_le_bytes([b'h', b'i', 0, 0])),
            Cell::Val(CellData::from_num(2)),
            Cell::Op(Op::FFI(PixelBlazeFFI::ConsoleLog)),
        ]
    );
    let mut full: VM<PixelBlazeFFI, Recorder> = VM::new_empty(Recorder::new());
    for _ in 0..61 {
        full.push(Cell::val(0));
    }
    assert_eq!(announce(&mut full, "hi"), Err(VMError::Overflow));
    assert_eq!(full.stack().len(), 61);
    full.push(Cell::val(0));
    full.push(Cell::val(0));
    full.push(Cell::val(0));
    assert_eq!(invoke(&mut full, "f", CellData::one()), Err(VMError::Overflow));
}

#[test]
fn hsv_wraps_the_hue() {
    let mut vm: VM<PixelBlazeFFI, Recorder> = VM::new_empty(Recorder::new());
    vm.push(Cell::Op(Op::PopRet));
    vm.push(Cell::Val(CellData::from_bits(0x1_4000)));
    vm.push(Cell::Val(CellData::from_bits(0x8000)));
    vm.push(Cell::Val(CellData::from_bits(0x1_0000)));
    vm.push(Cell::Op(Op::FFI(PixelBlazeFFI::Hsv)));
    assert_eq!(vm.run(), Ok(()));
    assert_eq!(vm.runtime().events, vec![Event::Hsv(0x4000, 0x8000, 0x1_0000)]);
    assert!(vm.return_stack().is_empty());
    vm.push(Cell::Val(CellData::from_bits(0x1_4000)));
    vm.push(Cell::Val(CellData::from_bits(0x8000)));
    vm.push(Cell::Val(CellData::from_bits(0x1_0000)));
    vm.push(Cell::Op(Op::FFI(PixelBlazeFFI::ExtOkHsl)));
    assert_eq!(vm.run(), Ok(()));
    assert_eq!(vm.runtime().events[1], Event::OkHsl(0x4000, 0x8000, 0x1_0000));
    assert_eq!(vm.return_stack(), &[Cell::Null]);
}

#[test]
fn runtime_can_be_changed_in_place() {
    let mut ex = executor(2);
    ex.runtime_mut().unwrap().now = 5;
    assert_eq!(ex.runtime().unwrap().now, 5);
    assert_eq!(ex.pixel_count(), 2);
    let vm = ex.take_vm();
    assert!(vm.is_some());
    assert!(ex.runtime_mut().is_none());
}
