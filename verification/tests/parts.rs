use trenchcoat::forth::inter::to_quit;
use trenchcoat::forth::runtime::JSIshFFI;
use trenchcoat::forth::util::pack;
use trenchcoat::vanillajs::runtime::VanillaJSRuntime;
use trenchcoat::forth::util::{MockRuntime, NoFFI};
use trenchcoat::forth::vm::{Cell, CellData, FFIError, FFIOps, FuncDef, FuncTable, Op, VMError, VarStorage, VM};
use trenchcoat::pixelblaze::timer::{wrap_millis, StdTimer};
use trenchcoat::pixelblaze::util::{component, cook_hue, hsv2rgb, hsv2rgb_cells};
use trenchcoat::vanillajs::runtime::VanillaJSFFI;

type Machine = VM<VanillaJSFFI, MockRuntime>;

fn sample() -> Machine {
    let mut vm: Machine = VM::new_empty(MockRuntime);
    vm.push(Cell::val(1));
    vm.push(Cell::Op(Op::Call("f".to_string())));
    vm.push_return(Cell::Null);
    vm.set_var("g", CellData::from_num(3));
    vm.decl_var("h");
    vm.add_func("f", &["a".to_string()], &[Cell::Null, Cell::Op(Op::Return)]);
    vm
}

#[test]
fn parts_round_trip() {
    let vm = sample();
    let (stack, rstack, addr, globals, locals, funcs, _rt) = vm.into_parts();
    let again: Machine = VM::from_parts(stack, rstack, addr, globals, locals, funcs, MockRuntime).unwrap();
    let vm = sample();
    assert_eq!(again.stack(), vm.stack());
    assert_eq!(again.return_stack(), vm.return_stack());
    assert_eq!(again.return_addr, vm.return_addr);
    assert_eq!(again.globals().entries, vm.globals().entries);
    assert_eq!(again.get_var("g"), Ok(Some(CellData::from_num(3))));
    assert_eq!(again.get_var("h"), Ok(None));
    assert_eq!(again.funcs().len(), 1);
    assert_eq!(again.funcs().get("f").unwrap().stack(), vm.funcs().get("f").unwrap().stack());
    assert_eq!(again.funcs().get("f").unwrap().params(), &["a".to_string()]);
}

fn parts_with(
    stack: Vec<Cell<VanillaJSFFI>>,
    rstack: Vec<Cell<VanillaJSFFI>>,
    globals: VarStorage,
    locals: Vec<VarStorage>,
    funcs: FuncTable<VanillaJSFFI>,
) -> Result<Machine, VMError> {
    VM::from_parts(stack, rstack, None, globals, locals, funcs, MockRuntime)
}

fn scope(names: &[&str]) -> VarStorage {
    VarStorage { entries: names.iter().map(|n| (n.to_string(), None)).collect() }
}

#[test]
fn parts_are_checked() {
    let ok = |r: Result<Machine, VMError>| r.is_ok();
    let bad = |r: Result<Machine, VMError>| matches!(r, Err(VMError::Malformed));
    assert!(ok(parts_with(vec![], vec![], scope(&[]), vec![], FuncTable::new())));
    assert!(ok(parts_with(vec![Cell::Null; 64], vec![Cell::Null; 4], scope(&["a", "b"]), vec![scope(&["a"]); 8], FuncTable::new())));
    assert!(bad(parts_with(vec![Cell::Null; 65], vec![], scope(&[]), vec![], FuncTable::new())));
    assert!(bad(parts_with(vec![], vec![Cell::Null; 5], scope(&[]), vec![], FuncTable::new())));
    assert!(bad(parts_with(vec![], vec![], scope(&["a", "b", "a"]), vec![], FuncTable::new())));
    assert!(bad(parts_with(vec![], vec![], scope(&[]), vec![scope(&[]); 9], FuncTable::new())));
    assert!(bad(parts_with(vec![], vec![], scope(&[]), vec![scope(&["x"]), scope(&["y", "y"])], FuncTable::new())));
    let many: Vec<String> = (0..33).map(|i| format!("v{i}")).collect();
    let many: Vec<&str> = many.iter().map(|s| s.as_str()).collect();
    assert!(bad(parts_with(vec![], vec![], scope(&many), vec![], FuncTable::new())));
    let def = |params: usize, body: usize| FuncDef::new(vec!["p".to_string(); params], vec![Cell::Null; body]);
    let table = |entries: Vec<(&str, FuncDef<VanillaJSFFI>)>| FuncTable {
        entries: entries.into_iter().map(|(n, d)| (n.to_string(), d)).collect(),
    };
    assert!(ok(parts_with(vec![], vec![], scope(&[]), vec![], table(vec![("f", def(4, 64)), ("g", def(0, 0))]))));
    assert!(bad(parts_with(vec![], vec![], scope(&[]), vec![], table(vec![("f", def(5, 0))]))));
    assert!(bad(parts_with(vec![], vec![], scope(&[]), vec![], table(vec![("f", def(0, 65))]))));
    assert!(bad(parts_with(vec![], vec![], scope(&[]), vec![], table(vec![("f", def(0, 0)), ("f", def(0, 0))]))));
    let five = vec![("a", def(0, 0)), ("b", def(0, 0)), ("c", def(0, 0)), ("d", def(0, 0)), ("e", def(0, 0))];
    assert!(bad(parts_with(vec![], vec![], scope(&[]), vec![], table(five))));
    assert!(scope(&["a"]).check() && !scope(&["a", "a"]).check());
}

#[test]
fn no_foreign_operations() {
    let mut vm: VM<NoFFI, MockRuntime> = VM::new_empty(MockRuntime);
    vm.push(Cell::Op(Op::FFI(NoFFI)));
    assert_eq!(vm.run(), Err(VMError::FFI(FFIError::FunctionNotFound)));
    assert!(<NoFFI as FFIOps<MockRuntime>>::call_info(&NoFFI).is_empty());
    let mut rt = MockRuntime;
    let params = vec![Cell::val(1), Cell::Null];
    assert_eq!(NoFFI.dispatch(&mut rt, &params), Err(VMError::FFI(FFIError::FunctionNotFound)));
    assert_eq!(NoFFI.dispatch(&mut rt, &vec![]), Err(VMError::FFI(FFIError::FunctionNotFound)));
}

#[test]
fn quitting_words() {
    assert!(to_quit("quit") && to_quit("q") && to_quit("exit"));
    assert!(!to_quit("") && !to_quit("Quit") && !to_quit("quit "));
}

#[test]
fn colors() {
    assert_eq!(hsv2rgb(0, 255, 255), (255, 0, 0));
    assert_eq!(hsv2rgb(85, 255, 255), (0, 255, 0));
    assert_eq!(hsv2rgb(170, 255, 255), (0, 0, 255));
    assert_eq!(hsv2rgb(255, 255, 255), (255, 0, 0));
    assert_eq!(hsv2rgb(43, 255, 255), (252, 255, 0));
    assert_eq!(hsv2rgb(128, 255, 255), (0, 252, 255));
    assert_eq!(hsv2rgb(213, 255, 255), (255, 0, 252));
    assert_eq!(hsv2rgb(21, 128, 200), (200, 149, 99));
    assert_eq!(hsv2rgb(100, 0, 77), (77, 77, 77));
    assert_eq!(hsv2rgb(100, 255, 0), (0, 0, 0));
    assert_eq!(component(CellData::one()), Some(255));
    assert_eq!(component(CellData::zero()), Some(0));
    assert_eq!(component(CellData::from_bits(0x8000)), Some(127));
    assert_eq!(component(CellData::from_bits(-1)), None);
    assert_eq!(component(CellData::from_bits(0x1_0001)), None);
    assert_eq!(hsv2rgb_cells(CellData::zero(), CellData::one(), CellData::one()), Some((255, 0, 0)));
    assert_eq!(hsv2rgb_cells(CellData::from_num(2), CellData::one(), CellData::one()), None);
    assert_eq!(cook_hue(CellData::from_bits(77)), CellData::from_bits(77));
}

#[test]
fn timer_moves_forward() {
    let timer = StdTimer::new();
    let a = timer.time_millis();
    let b = timer.time_millis();
    assert!(a <= b);
    assert!(b < 60_000);
    assert!(StdTimer::default().time_millis() < 60_000);
    assert_eq!(wrap_millis(0), 0);
    assert_eq!(wrap_millis(4_294_967_295), u32::MAX);
    assert_eq!(wrap_millis(4_294_967_296), 0);
    assert_eq!(wrap_millis(4_294_967_296 * 3 + 17), 17);
}

struct Logger(Vec<String>);

impl VanillaJSRuntime for Logger {
    fn time_millis(&mut self) -> u32 {
        0
    }

    fn log(&mut self, s: &str) {
        self.0.push(s.to_string());
    }
}

#[test]
fn smallest_flavor_logs() {
    let mut stack: Vec<Cell<JSIshFFI>> = pack("hi there".as_bytes());
    stack.push(Cell::Op(Op::FFI(JSIshFFI::ConsoleLogStr)));
    let mut vm = VM::new(stack, FuncTable::new(), Logger(vec![]));
    assert_eq!(vm.run(), Ok(()));
    assert_eq!(vm.runtime().0, vec!["hi there".to_string()]);
    vm.push(Cell::val(1));
    vm.push(Cell::Op(Op::FFI(JSIshFFI::ConsoleLogStr)));
    assert_eq!(vm.run(), Err(VMError::Malformed));
    assert_eq!(Cell::<JSIshFFI>::val(4).unwrap_val(), CellData::from_num(4));
}
