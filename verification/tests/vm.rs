use trenchcoat::forth::compiler::{compile, BinaryOp, Expr, Lit, Stmt};
use trenchcoat::forth::util::{pack, MockRuntime};
use trenchcoat::forth::vm::{Cell, CellData, FFIError, FuncTable, Op, VMError, ValError, VM};
use trenchcoat::vanillajs::ffi::ffi_funcs;
use trenchcoat::vanillajs::runtime::{VanillaJSFFI, VanillaJSRuntime};

struct TestRuntime {
    logs: Vec<String>,
    now: u32,
}

impl TestRuntime {
    fn new() -> Self {
        TestRuntime { logs: Vec::new(), now: 0 }
    }

    fn last_log(&self) -> Option<&str> {
        self.logs.last().map(|s| s.as_str())
    }
}

impl VanillaJSRuntime for TestRuntime {
    fn time_millis(&mut self) -> u32 {
        self.now
    }

    fn log(&mut self, s: &str) {
        self.logs.push(s.to_string());
    }
}

type Machine = VM<VanillaJSFFI, TestRuntime>;

fn machine() -> Machine {
    VM::new_empty(TestRuntime::new())
}

fn val(n: i32) -> Cell<VanillaJSFFI> {
    Cell::val(n)
}

fn op(o: Op<VanillaJSFFI>) -> Cell<VanillaJSFFI> {
    Cell::Op(o)
}

fn num(n: i32) -> Expr {
    Expr::Lit(Lit::Num(CellData::from_num(n)))
}

#[test]
fn vm_test_serde() {
    let mut vm = machine();
    vm.push(val(5));
    vm.push(val(4));
    vm.push(op(Op::Add));
    vm.push(val(10));
    vm.push(op(Op::Mul));
    assert_eq!(vm.run(), Ok(()));
    vm.do_return();
    assert_eq!(vm.return_stack(), &[val(90)]);
    assert!(vm.stack().is_empty());
}

#[test]
fn arithmetic_ends_on_the_return_stack() {
    let mut vm = machine();
    vm.push(val(5));
    vm.push(val(4));
    vm.push(op(Op::Add));
    vm.push(val(10));
    vm.push(op(Op::Mul));
    vm.push(op(Op::Return));
    assert_eq!(vm.run(), Ok(()));
    assert_eq!(vm.return_stack(), &[val(90)]);
    assert!(vm.stack().is_empty());
}

#[test]
fn function_returns_a_constant() {
    let program = vec![Stmt::Fn(trenchcoat::forth::compiler::FnDecl {
        name: "main".to_string(),
        params: vec![],
        body: vec![Stmt::Return(Some(num(90)))],
    })];
    let mut vm = compile(&program, ffi_funcs(), TestRuntime::new()).unwrap();
    assert_eq!(vm.run(), Ok(()));
    assert_eq!(vm.call_fn("main"), Ok(()));
    assert_eq!(vm.pop(), Ok(Cell::Null));
    assert_eq!(vm.return_stack(), &[val(90)]);
    assert!(vm.stack().is_empty());
}

#[test]
fn vm_test_if() {
    let assign = |n: i32| Stmt::Block(vec![Stmt::Expr(Expr::Assign("x".to_string(), Box::new(num(n))))]);
    let program = vec![Stmt::If(
        Expr::Bin(BinaryOp::Lt, Box::new(num(1)), Box::new(num(0))),
        Box::new(assign(1)),
        Some(Box::new(assign(2))),
    )];
    let mut de = compile(&program, ffi_funcs(), TestRuntime::new()).unwrap();
    assert_eq!(de.run(), Ok(()));
    let x = de.get_var("x").unwrap();
    assert_eq!(x, Some(CellData::from_num(2)));
    assert!(de.stack().is_empty());
}

#[test]
fn conditional_takes_consequent_for_one() {
    let mut vm = machine();
    for c in [val(1), op(Op::If), val(7), op(Op::SetVar("x".to_string())), op(Op::Else), val(8), op(Op::SetVar("y".to_string())), op(Op::Then)] {
        vm.push(c);
    }
    assert_eq!(vm.run(), Ok(()));
    assert_eq!(vm.get_var("x"), Ok(Some(CellData::from_num(7))));
    assert_eq!(vm.get_var("y"), Err(VMError::VarNotFound));
    assert!(vm.stack().is_empty());
}

#[test]
fn conditional_computes_its_condition_first() {
    let cells = |cmp: Op<VanillaJSFFI>| {
        vec![val(5), val(3), val(2), op(cmp), op(Op::If), val(7), op(Op::SetVar("x".to_string())), op(Op::Else), val(8), op(Op::SetVar("y".to_string())), op(Op::Then)]
    };
    let mut vm = machine();
    for c in cells(Op::Gt) {
        vm.push(c);
    }
    assert_eq!(vm.run(), Ok(()));
    assert_eq!(vm.get_var("x"), Ok(Some(CellData::from_num(7))));
    assert_eq!(vm.get_var("y"), Err(VMError::VarNotFound));
    assert_eq!(vm.stack(), &[val(5)]);
    let mut vm = machine();
    for c in cells(Op::Lt) {
        vm.push(c);
    }
    assert_eq!(vm.run(), Ok(()));
    assert_eq!(vm.get_var("y"), Ok(Some(CellData::from_num(8))));
    assert_eq!(vm.get_var("x"), Err(VMError::VarNotFound));
    assert_eq!(vm.stack(), &[val(5)]);
}

#[test]
fn conditional_takes_alternative_otherwise() {
    let mut vm = machine();
    for c in [val(2), op(Op::If), val(7), op(Op::SetVar("x".to_string())), op(Op::Else), val(8), op(Op::SetVar("y".to_string())), op(Op::Then)] {
        vm.push(c);
    }
    assert_eq!(vm.run(), Ok(()));
    assert_eq!(vm.get_var("y"), Ok(Some(CellData::from_num(8))));
    assert_eq!(vm.get_var("x"), Err(VMError::VarNotFound));
}

#[test]
fn conditional_without_else_leaves_nothing_when_false() {
    let mut vm = machine();
    for c in [val(0), op(Op::If), val(7), op(Op::SetVar("x".to_string())), op(Op::Then)] {
        vm.push(c);
    }
    assert_eq!(vm.run(), Ok(()));
    assert_eq!(vm.get_var("x"), Err(VMError::VarNotFound));
    assert!(vm.stack().is_empty());
}

#[test]
fn conditional_malformed() {
    let mut vm = machine();
    vm.push(val(1));
    vm.push(op(Op::Then));
    assert_eq!(vm.run(), Err(VMError::Malformed));

    let mut vm = machine();
    for c in [val(1), op(Op::If), op(Op::Else), val(2), op(Op::Then)] {
        vm.push(c);
    }
    assert_eq!(vm.run(), Err(VMError::Malformed));

    let mut vm = machine();
    for c in [op(Op::If), val(2), op(Op::Then)] {
        vm.push(c);
    }
    assert_eq!(vm.run(), Err(VMError::Malformed));

    let mut vm = machine();
    vm.push(val(1));
    vm.push(op(Op::If));
    assert_eq!(vm.run(), Err(VMError::Malformed));
    let mut vm = machine();
    vm.push(val(1));
    vm.push(op(Op::Else));
    assert_eq!(vm.run(), Err(VMError::Malformed));
}

#[test]
fn function_squares_its_parameter() {
    let mut vm = machine();
    let body = vec![
        Cell::Null,
        op(Op::Return),
        op(Op::GetVar("x".to_string())),
        op(Op::GetVar("x".to_string())),
        op(Op::Mul),
        op(Op::Return),
    ];
    vm.add_func("sq", &["x".to_string()], &body);
    vm.push(val(7));
    vm.push(op(Op::Call("sq".to_string())));
    assert_eq!(vm.run(), Ok(()));
    assert_eq!(vm.pop(), Ok(Cell::Null));
    vm.push(op(Op::Nruter));
    assert_eq!(vm.run(), Ok(()));
    assert_eq!(vm.top(), Some(&val(49)));
}

#[test]
fn call_keeps_scope_depth() {
    let mut vm = machine();
    let body = vec![Cell::Null, op(Op::Return)];
    vm.add_func("f", &[], &body);
    assert_eq!(vm.locals.len(), 0);
    assert_eq!(vm.call_fn("f"), Ok(()));
    assert_eq!(vm.locals.len(), 0);
    let failing = vec![op(Op::Add)];
    vm.add_func("g", &[], &failing);
    assert!(vm.call_fn("g").is_err());
    assert_eq!(vm.locals.len(), 0);
}

#[test]
fn locals_shadow_globals() {
    let mut vm = machine();
    vm.set_var("a", CellData::from_num(1));
    let body = vec![
        Cell::Null,
        op(Op::Return),
        val(5),
        op(Op::SetVar("b".to_string())),
        val(9),
        op(Op::SetVar("a".to_string())),
    ];
    vm.add_func("f", &["a".to_string()], &body);
    vm.push(val(3));
    assert_eq!(vm.call_fn("f"), Ok(()));
    assert_eq!(vm.get_var("a"), Ok(Some(CellData::from_num(1))));
    assert_eq!(vm.get_var("b"), Ok(Some(CellData::from_num(5))));
}

#[test]
fn missing_function() {
    let mut vm = machine();
    assert_eq!(vm.call_fn("nope"), Err(VMError::FFI(FFIError::FunctionNotFound)));
    vm.push(op(Op::Call("nope".to_string())));
    assert_eq!(vm.run(), Err(VMError::FFI(FFIError::FunctionNotFound)));
}

#[test]
fn deep_recursion_overflows_the_scopes() {
    let mut vm = machine();
    let body = vec![op(Op::Call("f".to_string()))];
    vm.add_func("f", &[], &body);
    assert_eq!(vm.call_fn("f"), Err(VMError::Overflow));
    assert_eq!(vm.locals.len(), 0);
}

#[test]
fn dynamic_call() {
    let mut vm = machine();
    let body = vec![Cell::Null, op(Op::Return), val(3), op(Op::SetVar("t".to_string()))];
    vm.add_func("go", &[], &body);
    vm.push_str("go");
    vm.push(op(Op::CallDyn));
    assert_eq!(vm.run(), Ok(()));
    assert_eq!(vm.get_var("t"), Ok(Some(CellData::from_num(3))));

    let mut vm = machine();
    vm.push(val(3));
    vm.push(op(Op::CallDyn));
    assert_eq!(vm.run(), Err(VMError::Malformed));
}

#[test]
fn test_ffi() {
    let s = "∆ohai∆";
    let mut stack: Vec<Cell<VanillaJSFFI>> = pack(s.as_bytes());
    stack.push(Cell::Op(Op::FFI(VanillaJSFFI::ConsoleLog)));
    let mut vm = VM::new(stack, FuncTable::new(), TestRuntime::new());
    assert_eq!(vm.run(), Ok(()));
    assert_eq!(vm.return_stack(), &[Cell::Null]);
    let rt = vm.dismember();
    assert_eq!(Some(s), rt.last_log());
    assert_eq!(rt.logs.len(), 1);
}

#[test]
fn ffi_math_pow_takes_params_in_popped_order() {
    let mut vm = machine();
    vm.push(val(2));
    vm.push(val(5));
    vm.push(op(Op::FFI(VanillaJSFFI::MathPow)));
    assert_eq!(vm.run(), Ok(()));
    assert_eq!(vm.return_stack(), &[val(25)]);
    assert!(vm.stack().is_empty());
}

#[test]
fn ffi_errors() {
    let mut vm = machine();
    vm.push(op(Op::FFI(VanillaJSFFI::MathPow)));
    assert_eq!(vm.run(), Err(VMError::Underflow));

    let mut vm = machine();
    vm.push(Cell::Null);
    vm.push(val(2));
    vm.push(op(Op::FFI(VanillaJSFFI::MathPow)));
    assert_eq!(vm.run(), Err(VMError::TypeCoercion));

    let mut vm = machine();
    vm.push(val(2));
    vm.push(op(Op::FFI(VanillaJSFFI::ConsoleLog)));
    assert_eq!(vm.run(), Err(VMError::Malformed));

    let mut vm = machine();
    vm.push(Cell::Raw(0));
    vm.push(op(Op::FFI(VanillaJSFFI::ConsoleLog)));
    assert_eq!(vm.run(), Err(VMError::Malformed));
}

#[test]
fn arithmetic_errors() {
    let mut vm = machine();
    vm.push(val(1));
    vm.push(op(Op::Add));
    assert_eq!(vm.run(), Err(VMError::Underflow));

    let mut vm = machine();
    vm.push(Cell::Raw(3));
    vm.push(val(1));
    vm.push(op(Op::Add));
    assert_eq!(vm.run(), Err(VMError::Val(ValError::Raw)));

    let mut vm = machine();
    vm.push(Cell::Null);
    vm.push(op(Op::SetVar("x".to_string())));
    assert_eq!(vm.run(), Err(VMError::Val(ValError::Null)));

    let mut vm = machine();
    vm.push(val(1));
    vm.push(val(0));
    vm.push(op(Op::Div));
    assert_eq!(vm.run(), Err(VMError::DivByZero));

    let mut vm = machine();
    vm.push(val(1));
    vm.push(val(0));
    vm.push(op(Op::Mod));
    assert_eq!(vm.run(), Err(VMError::DivByZero));
}

#[test]
fn binary_operations() {
    let cases: Vec<(Op<VanillaJSFFI>, i32, i32, i32)> = vec![
        (Op::Add, 5, 4, 9),
        (Op::Sub, 5, 4, 1),
        (Op::Mul, 5, 4, 20),
        (Op::Div, 20, 4, 5),
        (Op::Mod, 7, 4, 3),
        (Op::And, 6, 3, 2),
        (Op::Or, 6, 3, 7),
        (Op::EqEq, 3, 3, 1),
        (Op::EqEq, 3, 4, 0),
        (Op::NotEq, 3, 4, 1),
        (Op::Lt, 3, 4, 1),
        (Op::Lt, 4, 3, 0),
        (Op::LtEq, 4, 4, 1),
        (Op::Gt, 4, 3, 1),
        (Op::GtEq, 3, 4, 0),
    ];
    for (o, a, b, expected) in cases {
        let mut vm = machine();
        vm.push(val(a));
        vm.push(val(b));
        vm.push(op(o));
        assert_eq!(vm.run(), Ok(()));
        assert_eq!(vm.stack(), &[val(expected)]);
    }
}

#[test]
fn arithmetic_matches_the_fixed_point_library() {
    type Fix = fixed::types::I16F16;
    let samples: [i32; 9] = [0, 1, -1, 0x1_0000, -0x1_8000, 0x7fff_ffff, i32::MIN, 123_456_789, -987_654];
    for &a in samples.iter() {
        for &b in samples.iter() {
            let (x, y) = (Fix::from_bits(a), Fix::from_bits(b));
            let mut expected: Vec<(Op<VanillaJSFFI>, i32)> = vec![
                (Op::Add, x.wrapping_add(y).to_bits()),
                (Op::Sub, x.wrapping_sub(y).to_bits()),
                (Op::Mul, x.wrapping_mul(y).to_bits()),
                (Op::And, (x & y).to_bits()),
                (Op::Or, (x | y).to_bits()),
            ];
            if b != 0 {
                expected.push((Op::Div, x.wrapping_div(y).to_bits()));
                expected.push((Op::Mod, x.checked_rem(y).unwrap().to_bits()));
            }
            for (o, bits) in expected {
                let mut vm = machine();
                vm.push(Cell::Val(CellData::from_bits(a)));
                vm.push(Cell::Val(CellData::from_bits(b)));
                vm.push(op(o));
                assert_eq!(vm.run(), Ok(()));
                assert_eq!(vm.stack(), &[Cell::Val(CellData::from_bits(bits))]);
            }
        }
    }
}

#[test]
fn variables() {
    let mut vm = machine();
    assert_eq!(vm.get_var("x"), Err(VMError::VarNotFound));
    vm.decl_var("x");
    assert_eq!(vm.get_var("x"), Ok(None));
    vm.push(op(Op::GetVar("x".to_string())));
    assert_eq!(vm.run(), Err(VMError::VarNotFound));
    vm.set_var("x", CellData::from_num(4));
    vm.push(op(Op::GetVar("x".to_string())));
    assert_eq!(vm.run(), Ok(()));
    assert_eq!(vm.stack(), &[val(4)]);
    vm.push(op(Op::DeclVar("x".to_string())));
    assert_eq!(vm.run(), Ok(()));
    assert_eq!(vm.get_var("x"), Ok(None));
    assert_eq!(vm.globals().len(), 1);
}

#[test]
fn globals_overflow() {
    let mut vm = machine();
    for i in 0..32 {
        assert_eq!(vm.try_set_var(&format!("v{i}"), CellData::from_num(i)), Ok(()));
    }
    assert_eq!(vm.try_set_var("one_more", CellData::from_num(0)), Err(VMError::Overflow));
    assert_eq!(vm.try_set_var("v3", CellData::from_num(99)), Ok(()));
    assert_eq!(vm.get_var("v3"), Ok(Some(CellData::from_num(99))));
    vm.push(val(1));
    vm.push(op(Op::SetVar("another".to_string())));
    assert_eq!(vm.run(), Err(VMError::Overflow));
}

#[test]
fn stacks_stay_within_capacity() {
    let mut vm = machine();
    for _ in 0..4 {
        vm.push_return(val(1));
    }
    vm.push(val(2));
    vm.push(op(Op::Return));
    assert_eq!(vm.run(), Err(VMError::Overflow));
    assert_eq!(vm.return_stack().len(), 4);

    let mut vm = machine();
    vm.push_return(val(1));
    for _ in 0..63 {
        vm.push(val(0));
    }
    vm.push(op(Op::Nruter));
    assert_eq!(vm.run(), Ok(()));
    assert_eq!(vm.stack().len(), 64);
    vm.set_var("x", CellData::from_num(1));
    let body = vec![op(Op::GetVar("x".to_string()))];
    vm.add_func("f", &[], &body);
    assert_eq!(vm.call_fn("f"), Err(VMError::Overflow));
    assert!(vm.stack().len() <= 64);
}

#[test]
fn return_stack_operations() {
    let mut vm = machine();
    vm.push(op(Op::PopRet));
    assert_eq!(vm.run(), Err(VMError::Underflow));
    let mut vm = machine();
    vm.push(op(Op::Nruter));
    assert_eq!(vm.run(), Err(VMError::Underflow));
    let mut vm = machine();
    vm.push(op(Op::Return));
    assert_eq!(vm.run(), Err(VMError::Underflow));
    let mut vm = machine();
    vm.push_return(val(3));
    vm.push(op(Op::PopRet));
    assert_eq!(vm.run(), Ok(()));
    assert!(vm.return_stack().is_empty());
    assert_eq!(vm.pop_return(), Err(VMError::Underflow));
    assert_eq!(vm.pop(), Err(VMError::Underflow));
}

#[test]
fn exit_fn_cuts_back_to_the_return_address() {
    let mut vm = machine();
    vm.push(op(Op::ExitFn));
    assert_eq!(vm.run(), Err(VMError::Malformed));

    let mut vm = machine();
    vm.push(val(1));
    vm.push(val(2));
    vm.return_addr = Some(1);
    vm.exit_fn();
    assert_eq!(vm.stack(), &[val(1)]);
    assert_eq!(vm.return_addr, None);
}

#[test]
fn driver_gives_up_when_the_budget_is_spent() {
    let mut vm = machine();
    vm.push(val(1));
    vm.push(val(2));
    vm.push(op(Op::Add));
    vm.push(val(3));
    vm.push(op(Op::Add));
    assert_eq!(vm.drive(1), Err(VMError::Exhausted));
    let mut vm = machine();
    vm.push(val(1));
    vm.push(val(2));
    vm.push(op(Op::Add));
    vm.push(val(3));
    vm.push(op(Op::Add));
    assert_eq!(vm.drive(2), Ok(()));
    assert_eq!(vm.stack(), &[val(6)]);
}

#[test]
fn idle_machine_runs_to_success() {
    let mut vm = machine();
    assert_eq!(vm.run(), Ok(()));
    vm.push(val(1));
    assert_eq!(vm.run(), Ok(()));
    assert_eq!(vm.stack(), &[val(1)]);
}

#[test]
fn bytecode_test_str() {
    let mut vm: VM<VanillaJSFFI, MockRuntime> = VM::new_empty(MockRuntime);
    let s = "⭐hello, vm!⭐";
    vm.push_str(s);
    assert_eq!(vm.get_str().as_deref(), Some(s));
    assert!(vm.stack().is_empty());
}

#[test]
fn a_long_text_comes_back_from_the_stack() {
    let mut vm: VM<VanillaJSFFI, MockRuntime> = VM::new_empty(MockRuntime);
    vm.push(val(7));
    let s: String = (0..100).map(|i| char::from(b'a' + (i % 26) as u8)).collect();
    vm.push_str(&s);
    assert_eq!(vm.stack().len(), 27);
    assert_eq!(vm.get_str(), Some(s));
    assert_eq!(vm.stack(), &[val(7)]);
    let odd = "x".repeat(33);
    vm.push_str(&odd);
    assert_eq!(vm.get_str(), Some(odd));
    assert_eq!(vm.stack(), &[val(7)]);
}

#[test]
fn get_str_rejects_what_is_no_string() {
    let mut vm = machine();
    vm.push(val(1));
    assert_eq!(vm.get_str(), None);
    assert_eq!(vm.stack(), &[val(1)]);
    let mut vm = machine();
    vm.push(Cell::Raw(0xff));
    vm.push(val(1));
    assert_eq!(vm.get_str(), None);
    assert_eq!(vm.stack().len(), 2);
}

#[test]
fn cell_values() {
    let c: Cell<VanillaJSFFI> = Cell::val(3);
    assert_eq!(c.checked_val(), Ok(CellData::from_bits(3 << 16)));
    assert_eq!(Cell::<VanillaJSFFI>::Null.checked_val(), Err(ValError::Null));
    assert_eq!(Cell::<VanillaJSFFI>::Raw(1).checked_val(), Err(ValError::Raw));
    assert_eq!(op(Op::Add).checked_val(), Err(ValError::Op));
    assert_eq!(op(Op::Add).try_val(), Err(VMError::TypeCoercion));
    assert_eq!(Cell::<VanillaJSFFI>::Raw(7).unwrap_raw(), 7);
}
