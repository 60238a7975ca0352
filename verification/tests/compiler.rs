use trenchcoat::forth::compiler::{
    binary_op, compile, BinaryOp, Callee, CompileError, Compiler, Expr, FnDecl, Lit, Stmt, UnaryOp, VarDeclarator,
};
use trenchcoat::forth::util::MockRuntime;
use trenchcoat::forth::vm::{Cell, CellData, Op};
use trenchcoat::vanillajs::ffi::ffi_funcs;
use trenchcoat::vanillajs::runtime::VanillaJSFFI;

type C = Cell<VanillaJSFFI>;

fn num(n: i32) -> Expr {
    Expr::Lit(Lit::Num(CellData::from_num(n)))
}

fn ident(name: &str) -> Expr {
    Expr::Ident(name.to_string())
}

fn val(n: i32) -> C {
    Cell::val(n)
}

fn op(o: Op<VanillaJSFFI>) -> C {
    Cell::Op(o)
}

fn s(name: &str) -> String {
    name.to_string()
}

fn lower(e: &Expr) -> Result<Vec<C>, CompileError> {
    let mut c = Compiler::new(ffi_funcs());
    c.eval_expr(e, false)?;
    Ok(c.stack)
}

fn lower_wanted(e: &Expr) -> Result<Vec<C>, CompileError> {
    let mut c = Compiler::new(ffi_funcs());
    c.eval_expr(e, true)?;
    Ok(c.stack)
}

fn lower_stmt(st: &Stmt) -> Result<Compiler<VanillaJSFFI>, CompileError> {
    let mut c = Compiler::new(ffi_funcs());
    c.visit_stmt(st)?;
    Ok(c)
}

#[test]
fn compiler_test_if() {
    let assign = |n: i32| Stmt::Block(vec![Stmt::Expr(Expr::Assign(s("x"), Box::new(num(n))))]);
    let program = vec![Stmt::If(
        Expr::Bin(BinaryOp::Gt, Box::new(num(1)), Box::new(num(0))),
        Box::new(assign(1)),
        Some(Box::new(assign(2))),
    )];
    let vm = compile(&program, ffi_funcs(), MockRuntime).unwrap();
    assert_eq!(
        vm.stack(),
        &[
            val(1),
            val(0),
            op(Op::Gt),
            op(Op::If),
            val(1),
            op(Op::SetVar(s("x"))),
            op(Op::Else),
            val(2),
            op(Op::SetVar(s("x"))),
            op(Op::Then),
        ]
    );
}

#[test]
fn literals() {
    assert_eq!(lower(&num(7)), Ok(vec![val(7)]));
    assert_eq!(lower(&Expr::Lit(Lit::Bool(true))), Ok(vec![val(1)]));
    assert_eq!(lower(&Expr::Lit(Lit::Bool(false))), Ok(vec![val(0)]));
    assert_eq!(
        lower(&Expr::Lit(Lit::Str(s("abcde")))),
        Ok(vec![
            Cell::Raw(i32::from_le_bytes(*b"abcd")),
            Cell::Raw(i32::from_le_bytes([b'e', 0, 0, 0])),
            val(5),
        ])
    );
    assert_eq!(lower(&Expr::Lit(Lit::Null)), Err(CompileError::Unsupported));
    assert_eq!(lower(&Expr::Lit(Lit::Other)), Err(CompileError::Unsupported));
    assert_eq!(lower(&Expr::Lit(Lit::Str("x".repeat(32768)))), Err(CompileError::StringTooLong));
    assert_eq!(lower(&Expr::Other), Err(CompileError::Unsupported));
}

#[test]
fn operators() {
    let bin = |o: BinaryOp| Expr::Bin(o, Box::new(ident("a")), Box::new(num(2)));
    assert_eq!(lower(&bin(BinaryOp::Add)), Ok(vec![op(Op::GetVar(s("a"))), val(2), op(Op::Add)]));
    assert_eq!(lower(&bin(BinaryOp::BitOr)).unwrap()[2], op(Op::Or));
    assert_eq!(lower(&bin(BinaryOp::BitAnd)).unwrap()[2], op(Op::And));
    assert_eq!(lower(&bin(BinaryOp::Exp)), Err(CompileError::Unsupported));
    assert_eq!(lower(&bin(BinaryOp::EqEqEq)), Err(CompileError::Unsupported));
    assert_eq!(binary_op::<VanillaJSFFI>(BinaryOp::Mod), Some(Op::Mod));
    assert_eq!(binary_op::<VanillaJSFFI>(BinaryOp::LogicalAnd), None);
    assert_eq!(
        lower(&Expr::Unary(UnaryOp::Minus, Box::new(num(3)))),
        Ok(vec![val(3), val(-1), op(Op::Mul)])
    );
    assert_eq!(lower(&Expr::Unary(UnaryOp::Plus, Box::new(num(3)))), Ok(vec![]));
    assert_eq!(lower(&Expr::Unary(UnaryOp::Bang, Box::new(num(3)))), Err(CompileError::Unsupported));
}

#[test]
fn calls() {
    let call = |callee: Callee| Expr::Call(callee, vec![num(1), ident("b")]);
    assert_eq!(
        lower(&call(Callee::Ident(s("f")))),
        Ok(vec![op(Op::PopRet), val(1), op(Op::GetVar(s("b"))), op(Op::Call(s("f")))])
    );
    assert_eq!(
        lower(&call(Callee::Ident(s("math_pow")))),
        Ok(vec![op(Op::PopRet), val(1), op(Op::GetVar(s("b"))), op(Op::FFI(VanillaJSFFI::MathPow))])
    );
    assert_eq!(
        lower(&Expr::Call(Callee::Member(s("console"), s("log")), vec![Expr::Lit(Lit::Str(s("hi")))])),
        Ok(vec![
            op(Op::PopRet),
            Cell::Raw(i32::from_le_bytes([b'h', b'i', 0, 0])),
            val(2),
            op(Op::FFI(VanillaJSFFI::ConsoleLog)),
        ])
    );
    assert_eq!(lower(&call(Callee::Member(s("console"), s("warn")))), Err(CompileError::UnknownFunction));
    assert_eq!(lower(&call(Callee::Other)), Err(CompileError::Unsupported));
    let wanted = Expr::Assign(s("x"), Box::new(Expr::Call(Callee::Ident(s("f")), vec![])));
    assert_eq!(lower(&wanted), Ok(vec![op(Op::Nruter), op(Op::Call(s("f"))), op(Op::SetVar(s("x")))]));
    let nested = Expr::Call(
        Callee::Ident(s("g")),
        vec![Expr::Assign(s("x"), Box::new(num(1))), Expr::Call(Callee::Ident(s("h")), vec![])],
    );
    let inner = Expr::Assign(s("y"), Box::new(nested));
    assert_eq!(
        lower(&inner),
        Ok(vec![
            op(Op::Nruter),
            val(1),
            op(Op::SetVar(s("x"))),
            op(Op::Nruter),
            op(Op::Call(s("h"))),
            op(Op::Call(s("g"))),
            op(Op::SetVar(s("y"))),
        ])
    );
}

#[test]
fn a_call_whose_value_is_used_fetches_it() {
    let f = || Expr::Call(Callee::Ident(s("f")), vec![num(1)]);
    let fetched = vec![op(Op::Nruter), val(1), op(Op::Call(s("f")))];
    let dropped = vec![op(Op::PopRet), val(1), op(Op::Call(s("f")))];
    assert_eq!(lower(&f()), Ok(dropped.clone()));
    assert_eq!(lower_wanted(&f()), Ok(fetched.clone()));
    assert_eq!(lower(&Expr::Paren(Box::new(f()))), Ok(dropped.clone()));
    assert_eq!(lower_wanted(&Expr::Paren(Box::new(f()))), Ok(fetched.clone()));
    let sum = Expr::Bin(BinaryOp::Add, Box::new(f()), Box::new(num(2)));
    let mut expected = fetched.clone();
    expected.extend([val(2), op(Op::Add)]);
    assert_eq!(lower(&sum), Ok(expected.clone()));
    let c = lower_stmt(&Stmt::Return(Some(sum))).unwrap();
    expected.push(op(Op::Return));
    assert_eq!(c.stack, expected);
    let c = lower_stmt(&Stmt::If(f(), Box::new(Stmt::Expr(f())), None)).unwrap();
    let mut expected = fetched.clone();
    expected.push(op(Op::If));
    expected.extend(dropped.clone());
    expected.push(op(Op::Then));
    assert_eq!(c.stack, expected);
    let c = lower_stmt(&Stmt::Var(vec![VarDeclarator { name: s("a"), init: Some(f()) }])).unwrap();
    let mut expected = fetched.clone();
    expected.extend([op(Op::SetVar(s("a"))), op(Op::DeclVar(s("a")))]);
    assert_eq!(c.stack, expected);
    let negated = Expr::Unary(UnaryOp::Minus, Box::new(f()));
    let mut expected = fetched.clone();
    expected.extend([val(-1), op(Op::Mul)]);
    assert_eq!(lower(&negated), Ok(expected));
    let outer = Expr::Call(Callee::Ident(s("g")), vec![f()]);
    let mut expected = vec![op(Op::PopRet)];
    expected.extend(fetched.clone());
    expected.push(op(Op::Call(s("g"))));
    assert_eq!(lower(&outer), Ok(expected));
    let c = lower_stmt(&Stmt::Expr(f())).unwrap();
    assert_eq!(c.stack, dropped);
}

#[test]
fn an_exported_declaration_is_the_declaration() {
    let decl = || Stmt::Fn(FnDecl { name: s("main"), params: vec![], body: vec![Stmt::Return(Some(num(90)))] });
    let plain = lower_stmt(&decl()).unwrap();
    let exported = lower_stmt(&Stmt::Export(Box::new(decl()))).unwrap();
    assert_eq!(plain.func_defs.len(), 1);
    assert_eq!(exported.func_defs[0].0, "main");
    assert_eq!(exported.func_defs[0].1.stack(), plain.func_defs[0].1.stack());
    assert!(matches!(lower_stmt(&Stmt::Export(Box::new(Stmt::Other))), Err(CompileError::Unsupported)));
}

#[test]
fn foreign_names_win_over_functions() {
    let program = vec![
        Stmt::Fn(FnDecl { name: s("math_pow"), params: vec![], body: vec![] }),
        Stmt::Expr(Expr::Call(Callee::Ident(s("math_pow")), vec![num(2), num(3)])),
    ];
    let vm = compile(&program, ffi_funcs(), MockRuntime).unwrap();
    assert_eq!(vm.stack()[3], op(Op::FFI(VanillaJSFFI::MathPow)));
    assert!(vm.funcs().get("math_pow").is_some());
}

#[test]
fn statements() {
    let c = lower_stmt(&Stmt::Return(Some(num(1)))).unwrap();
    assert_eq!(c.stack, vec![val(1), op(Op::Return)]);
    let c = lower_stmt(&Stmt::Return(None)).unwrap();
    assert!(c.stack.is_empty());
    let c = lower_stmt(&Stmt::Var(vec![
        VarDeclarator { name: s("a"), init: Some(num(1)) },
        VarDeclarator { name: s("b"), init: None },
    ]))
    .unwrap();
    assert_eq!(c.stack, vec![val(1), op(Op::SetVar(s("a"))), op(Op::DeclVar(s("a"))), op(Op::DeclVar(s("b")))]);
    let c = lower_stmt(&Stmt::If(num(1), Box::new(Stmt::Expr(num(2))), None)).unwrap();
    assert_eq!(c.stack, vec![val(1), op(Op::If), val(2), op(Op::Then)]);
    assert!(matches!(lower_stmt(&Stmt::Other), Err(CompileError::Unsupported)));
    assert!(matches!(
        lower_stmt(&Stmt::Block(vec![Stmt::Expr(num(1)), Stmt::Other])),
        Err(CompileError::Unsupported)
    ));
}

#[test]
fn function_bodies_are_reversed() {
    let decl = Stmt::Fn(FnDecl {
        name: s("f"),
        params: vec![s("a"), s("b")],
        body: vec![
            Stmt::Expr(Expr::Assign(s("x"), Box::new(ident("a")))),
            Stmt::Return(Some(ident("b"))),
        ],
    });
    let c = lower_stmt(&decl).unwrap();
    assert!(c.stack.is_empty());
    assert_eq!(c.func_defs.len(), 1);
    assert_eq!(c.func_defs[0].0, "f");
    assert_eq!(c.func_defs[0].1.params(), &[s("a"), s("b")]);
    assert_eq!(
        c.func_defs[0].1.stack(),
        &[
            Cell::Null,
            op(Op::Return),
            op(Op::GetVar(s("b"))),
            op(Op::Return),
            op(Op::GetVar(s("a"))),
            op(Op::SetVar(s("x"))),
        ]
    );
}

#[test]
fn a_function_declared_twice_is_replaced() {
    let f = |n: i32| Stmt::Fn(FnDecl { name: s("f"), params: vec![], body: vec![Stmt::Return(Some(num(n)))] });
    let program = vec![f(1), Stmt::Fn(FnDecl { name: s("g"), params: vec![], body: vec![] }), f(2)];
    let vm = compile(&program, ffi_funcs(), MockRuntime).unwrap();
    assert_eq!(vm.funcs().len(), 2);
    assert_eq!(vm.funcs().get("f").unwrap().stack(), &[Cell::Null, op(Op::Return), val(2), op(Op::Return)]);
}

#[test]
fn too_large() {
    let many: Vec<Stmt> = (0..65).map(|i| Stmt::Expr(num(i))).collect();
    assert!(matches!(compile(&many, ffi_funcs(), MockRuntime), Err(CompileError::TooLarge)));
    let fits: Vec<Stmt> = (0..64).map(|i| Stmt::Expr(num(i))).collect();
    assert!(compile(&fits, ffi_funcs(), MockRuntime).is_ok());
    let funcs: Vec<Stmt> = (0..5)
        .map(|i| Stmt::Fn(FnDecl { name: format!("f{i}"), params: vec![], body: vec![] }))
        .collect();
    assert!(matches!(compile(&funcs, ffi_funcs(), MockRuntime), Err(CompileError::TooLarge)));
    let params = vec![Stmt::Fn(FnDecl {
        name: s("f"),
        params: vec![s("a"), s("b"), s("c"), s("d"), s("e")],
        body: vec![],
    })];
    assert!(matches!(compile(&params, ffi_funcs(), MockRuntime), Err(CompileError::TooLarge)));
    let mut c: Compiler<VanillaJSFFI> = Compiler::new(ffi_funcs());
    assert!(c.check_fits());
    for i in 0..65 {
        c.eval_expr(&num(i), true).unwrap();
    }
    assert!(!c.check_fits());
    assert!(matches!(c.into_vm(MockRuntime), Err(CompileError::TooLarge)));
}
