//! The lowering of a syntax tree into bytecode.
//!
//! The tree is that of the accepted subset of the source language. An
//! expression becomes the cells that compute it, in the order in which they
//! are pushed; a function declaration becomes an entry of the function
//! table, its statements in reverse so that the driver, which works from the
//! top of the stack down, meets them in source order.

use crate::forth::cell::{cells_view, Cell, CellView, FFIOps, Name, Op, OpView};
use crate::forth::cell_data::{CellData, MINUS_ONE_BITS, ONE_BITS};
use crate::forth::semantics::VMState;
use crate::forth::store::{
    find_key, keys_unique, lemma_find_key, lemma_find_key_at, lemma_find_key_none, FuncDef,
    FuncDefView, FuncTable, Funcs, FUNCS_CAPACITY, PARAMS_CAPACITY, STACK_CAPACITY,
};
use crate::forth::util::{pack, pack_spec, MAX_PACKED_LEN};
use crate::forth::vm::VM;
use vstd::prelude::*;
use vstd::string::StringExecFns;

verus! {

/// The flavors of the source language, which differ in the foreign
/// operations that a program can name.
#[derive(Clone, Copy, Debug, PartialEq, Eq, Structural)]
pub enum Flavor {
    VanillaJS,
    Pixelblaze,
    Pythonic,
}

/// Why a tree could not be lowered.
#[derive(Clone, Copy, Debug, PartialEq, Eq, Structural)]
pub enum CompileError {
    /// The tree holds something outside the accepted subset.
    Unsupported,
    /// A member call names no foreign operation.
    UnknownFunction,
    /// A string literal is too long to pack.
    StringTooLong,
    /// The program, or one of its functions, exceeds a capacity of the
    /// machine.
    TooLarge,
}

/// A prefix operator.
#[derive(Clone, Copy, Debug, PartialEq, Eq, Structural)]
pub enum UnaryOp {
    Minus,
    Plus,
    Bang,
    Tilde,
    TypeOf,
    Void,
    Delete,
}

/// An infix operator.
#[derive(Clone, Copy, Debug, PartialEq, Eq, Structural)]
pub enum BinaryOp {
    EqEq,
    NotEq,
    EqEqEq,
    NotEqEq,
    Lt,
    LtEq,
    Gt,
    GtEq,
    LShift,
    RShift,
    ZeroFillRShift,
    Add,
    Sub,
    Mul,
    Div,
    Mod,
    BitOr,
    BitXor,
    BitAnd,
    LogicalOr,
    LogicalAnd,
    In,
    InstanceOf,
    Exp,
    NullishCoalescing,
}

/// A literal.
#[derive(Debug)]
pub enum Lit {
    Str(String),
    Bool(bool),
    Num(CellData),
    Null,
    Other,
}

/// What a call names.
#[derive(Debug)]
pub enum Callee {
    /// A plain name.
    Ident(String),
    /// An object and one of its properties, both plain names.
    Member(String, String),
    Other,
}

/// An expression.
#[derive(Debug)]
pub enum Expr {
    Unary(UnaryOp, Box<Expr>),
    Bin(BinaryOp, Box<Expr>, Box<Expr>),
    /// An assignment to a plain name.
    Assign(String, Box<Expr>),
    Call(Callee, Vec<Expr>),
    Ident(String),
    Lit(Lit),
    /// An expression in parentheses.
    Paren(Box<Expr>),
    Other,
}

/// One variable of a declaration, with the expression that initializes it.
#[derive(Debug)]
pub struct VarDeclarator {
    pub name: String,
    pub init: Option<Expr>,
}

/// A function declaration.
#[derive(Debug)]
pub struct FnDecl {
    pub name: String,
    pub params: Vec<String>,
    pub body: Vec<Stmt>,
}

/// A statement.
#[derive(Debug)]
pub enum Stmt {
    Fn(FnDecl),
    If(Expr, Box<Stmt>, Option<Box<Stmt>>),
    Expr(Expr),
    Return(Option<Expr>),
    Var(Vec<VarDeclarator>),
    Block(Vec<Stmt>),
    /// An exported declaration.
    Export(Box<Stmt>),
    Other,
}

/// The names of the foreign operations, as specifications see them.
pub type FfiNames<FFI> = Seq<(Name, FFI)>;

/// The views of a table of foreign operations.
pub open spec fn ffi_view<FFI>(table: Seq<(String, FFI)>) -> FfiNames<FFI> {
    table.map_values(|e: (String, FFI)| (e.0@, e.1))
}

/// The views of a table of functions.
pub open spec fn defs_view<FFI>(defs: Seq<(String, FuncDef<FFI>)>) -> Funcs<FFI> {
    defs.map_values(|e: (String, FuncDef<FFI>)| (e.0@, e.1@))
}

/// The operation of an infix operator, where it has one.
pub open spec fn binary_op_spec<FFI>(op: BinaryOp) -> Option<OpView<FFI>> {
    match op {
        BinaryOp::EqEq => Some(OpView::EqEq),
        BinaryOp::NotEq => Some(OpView::NotEq),
        BinaryOp::Lt => Some(OpView::Lt),
        BinaryOp::LtEq => Some(OpView::LtEq),
        BinaryOp::Gt => Some(OpView::Gt),
        BinaryOp::GtEq => Some(OpView::GtEq),
        BinaryOp::Add => Some(OpView::Add),
        BinaryOp::Sub => Some(OpView::Sub),
        BinaryOp::Mul => Some(OpView::Mul),
        BinaryOp::Div => Some(OpView::Div),
        BinaryOp::Mod => Some(OpView::Mod),
        BinaryOp::BitOr => Some(OpView::Or),
        BinaryOp::BitAnd => Some(OpView::And),
        _ => None,
    }
}

/// The cell that starts a call: `Nruter`, which fetches the result, where
/// the result is wanted; `PopRet`, which drops it, where the call is a
/// statement of its own.
pub open spec fn call_prelude<FFI>(wanted: bool) -> CellView<FFI> {
    if wanted {
        CellView::Op(OpView::Nruter)
    } else {
        CellView::Op(OpView::PopRet)
    }
}

/// The cell that ends a call. A name that the table of foreign operations
/// knows is a foreign call, whatever functions the program declares; any
/// other plain name is a call of a function. A member call is the foreign
/// operation named by object, underscore and property, which must exist.
pub open spec fn callee_cell<FFI>(callee: Callee, table: FfiNames<FFI>) -> Result<
    CellView<FFI>,
    CompileError,
> {
    match callee {
        Callee::Ident(name) => match find_key(table, name@) {
            Some(i) => Ok(CellView::Op(OpView::FFI(table[i].1))),
            None => Ok(CellView::Op(OpView::Call(name@))),
        },
        Callee::Member(obj, prop) => match find_key(table, obj@ + "_"@ + prop@) {
            Some(i) => Ok(CellView::Op(OpView::FFI(table[i].1))),
            None => Err(CompileError::UnknownFunction),
        },
        Callee::Other => Err(CompileError::Unsupported),
    }
}

/// The cells of a literal.
pub open spec fn lower_lit<FFI>(lit: Lit) -> Result<Seq<CellView<FFI>>, CompileError> {
    match lit {
        Lit::Str(s) => if vstd::utf8::encode_utf8(s@).len() > MAX_PACKED_LEN {
            Err(CompileError::StringTooLong)
        } else {
            Ok(pack_spec(vstd::utf8::encode_utf8(s@)))
        },
        Lit::Bool(b) => Ok(seq![CellView::Val(CellData { bits: if b { ONE_BITS } else { 0 } })]),
        Lit::Num(v) => Ok(seq![CellView::Val(v)]),
        _ => Err(CompileError::Unsupported),
    }
}

/// The cells of an expression.
pub type Lowered<FFI> = Result<Seq<CellView<FFI>>, CompileError>;

/// The cells of an expression. `wanted` says whether the value of the
/// expression is used: it is for an operand, an argument, the right side of
/// an assignment, an initializer, the argument of a `return` and the test of
/// an `if`, and it is not for an expression that is a statement of its own.
/// Only a call looks at it, for its first cell.
///
/// A unary minus multiplies its operand by -1; a unary plus stands for no
/// cells at all, its operand included. An expression in parentheses stands
/// for what is inside them.
pub open spec fn lower_expr<FFI>(e: Expr, table: FfiNames<FFI>, wanted: bool) -> Lowered<FFI>
    decreases e, 0nat,
{
    match e {
        Expr::Unary(op, arg) => match op {
            UnaryOp::Minus => match lower_expr(*arg, table, true) {
                Err(err) => Err(err),
                Ok(cells) => Ok(
                    cells.push(CellView::Val(CellData { bits: MINUS_ONE_BITS })).push(
                        CellView::Op(OpView::Mul),
                    ),
                ),
            },
            UnaryOp::Plus => Ok(Seq::empty()),
            _ => Err(CompileError::Unsupported),
        },
        Expr::Bin(op, left, right) => match lower_expr(*left, table, true) {
            Err(err) => Err(err),
            Ok(l) => match lower_expr(*right, table, true) {
                Err(err) => Err(err),
                Ok(r) => match binary_op_spec::<FFI>(op) {
                    None => Err(CompileError::Unsupported),
                    Some(cell) => Ok((l + r).push(CellView::Op(cell))),
                },
            },
        },
        Expr::Assign(name, right) => match lower_expr(*right, table, true) {
            Err(err) => Err(err),
            Ok(cells) => Ok(cells.push(CellView::Op(OpView::SetVar(name@)))),
        },
        Expr::Call(callee, args) => match lower_args(args, 0, table) {
            Err(err) => Err(err),
            Ok(cells) => match callee_cell(callee, table) {
                Err(err) => Err(err),
                Ok(cell) => Ok((seq![call_prelude(wanted)] + cells).push(cell)),
            },
        },
        Expr::Ident(name) => Ok(seq![CellView::Op(OpView::GetVar(name@))]),
        Expr::Lit(lit) => lower_lit(lit),
        Expr::Paren(inner) => lower_expr(*inner, table, wanted),
        Expr::Other => Err(CompileError::Unsupported),
    }
}

/// The cells of the arguments from the `i`-th on, in order. The value of
/// every argument is wanted.
pub open spec fn lower_args<FFI>(args: Vec<Expr>, i: nat, table: FfiNames<FFI>) -> Lowered<FFI>
    decreases args, args.len() - i,
{
    if i >= args.len() {
        Ok(Seq::empty())
    } else {
        match lower_expr(args[i as int], table, true) {
            Err(err) => Err(err),
            Ok(first) => match lower_args(args, i + 1, table) {
                Err(err) => Err(err),
                Ok(rest) => Ok(first + rest),
            },
        }
    }
}

/// What a compiler has gathered: the cells of the top level and the
/// functions.
pub struct Gathered<FFI> {
    pub cells: Seq<CellView<FFI>>,
    pub funcs: Funcs<FFI>,
}

/// The table with `def` under `name`: in place of a function of that name,
/// else at the end.
pub open spec fn put_func<FFI>(funcs: Funcs<FFI>, name: Name, def: FuncDefView<FFI>) -> Funcs<FFI> {
    match find_key(funcs, name) {
        Some(i) => funcs.update(i, (name, def)),
        None => funcs.push((name, def)),
    }
}

/// What has been gathered after one more statement. An expression that is a
/// statement of its own is lowered with its value not wanted; the argument
/// of a `return` and the test of an `if` with their values wanted. An
/// exported declaration is the declaration.
pub open spec fn lower_stmt<FFI>(s: Stmt, table: FfiNames<FFI>, g: Gathered<FFI>) -> Result<
    Gathered<FFI>,
    CompileError,
>
    decreases s, 0nat,
{
    match s {
        Stmt::Fn(decl) => match lower_body(
            decl.body,
            decl.body.len() as nat,
            table,
            Gathered {
                cells: seq![CellView::Null, CellView::Op(OpView::Return)],
                funcs: Seq::empty(),
            },
        ) {
            Err(err) => Err(err),
            Ok(body) => Ok(
                Gathered {
                    funcs: put_func(
                        g.funcs,
                        decl.name@,
                        FuncDefView {
                            params: crate::forth::cell::names_view(decl.params@),
                            body: body.cells,
                        },
                    ),
                    ..g
                },
            ),
        },
        Stmt::If(test, cons, alt) => match lower_expr(test, table, true) {
            Err(err) => Err(err),
            Ok(cells) => match lower_stmt(
                *cons,
                table,
                Gathered { cells: (g.cells + cells).push(CellView::Op(OpView::If)), ..g },
            ) {
                Err(err) => Err(err),
                Ok(g1) => match alt {
                    None => Ok(Gathered { cells: g1.cells.push(CellView::Op(OpView::Then)), ..g1 }),
                    Some(other) => match lower_stmt(
                        *other,
                        table,
                        Gathered { cells: g1.cells.push(CellView::Op(OpView::Else)), ..g1 },
                    ) {
                        Err(err) => Err(err),
                        Ok(g2) => Ok(
                            Gathered { cells: g2.cells.push(CellView::Op(OpView::Then)), ..g2 },
                        ),
                    },
                },
            },
        },
        Stmt::Expr(e) => match lower_expr(e, table, false) {
            Err(err) => Err(err),
            Ok(cells) => Ok(Gathered { cells: g.cells + cells, ..g }),
        },
        Stmt::Return(arg) => match arg {
            None => Ok(g),
            Some(e) => match lower_expr(e, table, true) {
                Err(err) => Err(err),
                Ok(cells) => Ok(
                    Gathered { cells: (g.cells + cells).push(CellView::Op(OpView::Return)), ..g },
                ),
            },
        },
        Stmt::Var(decls) => lower_decls(decls, 0, table, g),
        Stmt::Block(stmts) => lower_stmts(stmts, 0, table, g),
        Stmt::Export(inner) => lower_stmt(*inner, table, g),
        Stmt::Other => Err(CompileError::Unsupported),
    }
}

/// What has been gathered after the declarations from the `i`-th on. An
/// initialized variable becomes the cells of its value and the assignment,
/// then the declaration; one without a value only the declaration.
pub open spec fn lower_decls<FFI>(
    decls: Vec<VarDeclarator>,
    i: nat,
    table: FfiNames<FFI>,
    g: Gathered<FFI>,
) -> Result<Gathered<FFI>, CompileError>
    decreases decls, decls.len() - i,
{
    if i >= decls.len() {
        Ok(g)
    } else {
        let d = decls[i as int];
        match d.init {
            None => lower_decls(
                decls,
                i + 1,
                table,
                Gathered { cells: g.cells.push(CellView::Op(OpView::DeclVar(d.name@))), ..g },
            ),
            Some(e) => match lower_expr(e, table, true) {
                Err(err) => Err(err),
                Ok(cells) => lower_decls(
                    decls,
                    i + 1,
                    table,
                    Gathered {
                        cells: (g.cells + cells).push(CellView::Op(OpView::SetVar(d.name@))).push(
                            CellView::Op(OpView::DeclVar(d.name@)),
                        ),
                        ..g
                    },
                ),
            },
        }
    }
}

/// What has been gathered after the statements from the `i`-th on, in
/// order.
pub open spec fn lower_stmts<FFI>(
    stmts: Vec<Stmt>,
    i: nat,
    table: FfiNames<FFI>,
    g: Gathered<FFI>,
) -> Result<Gathered<FFI>, CompileError>
    decreases stmts, stmts.len() - i,
{
    if i >= stmts.len() {
        Ok(g)
    } else {
        match lower_stmt(stmts[i as int], table, g) {
            Err(err) => Err(err),
            Ok(g1) => lower_stmts(stmts, i + 1, table, g1),
        }
    }
}

/// What has been gathered after the first `n` statements, taken from the
/// `n`-th down to the first.
pub open spec fn lower_body<FFI>(
    stmts: Vec<Stmt>,
    n: nat,
    table: FfiNames<FFI>,
    g: Gathered<FFI>,
) -> Result<Gathered<FFI>, CompileError>
    decreases stmts, n,
{
    if n == 0 || n > stmts.len() {
        Ok(g)
    } else {
        match lower_stmt(stmts[n - 1], table, g) {
            Err(err) => Err(err),
            Ok(g1) => lower_body(stmts, (n - 1) as nat, table, g1),
        }
    }
}

/// The operation of an infix operator; see [`binary_op_spec`].
pub fn binary_op<FFI>(op: BinaryOp) -> (r: Option<Op<FFI>>)
    ensures
        match binary_op_spec::<FFI>(op) {
            Some(v) => r is Some && r->Some_0@ == v,
            None => r is None,
        },
{
    match op {
        BinaryOp::EqEq => Some(Op::EqEq),
        BinaryOp::NotEq => Some(Op::NotEq),
        BinaryOp::Lt => Some(Op::Lt),
        BinaryOp::LtEq => Some(Op::LtEq),
        BinaryOp::Gt => Some(Op::Gt),
        BinaryOp::GtEq => Some(Op::GtEq),
        BinaryOp::Add => Some(Op::Add),
        BinaryOp::Sub => Some(Op::Sub),
        BinaryOp::Mul => Some(Op::Mul),
        BinaryOp::Div => Some(Op::Div),
        BinaryOp::Mod => Some(Op::Mod),
        BinaryOp::BitOr => Some(Op::Or),
        BinaryOp::BitAnd => Some(Op::And),
        _ => None,
    }
}

/// The state of a lowering: what has been gathered so far, and the table of
/// foreign operations that calls are looked up in.
pub struct Compiler<FFI> {
    pub stack: Vec<Cell<FFI>>,
    pub func_defs: Vec<(String, FuncDef<FFI>)>,
    pub ffi_defs: Vec<(String, FFI)>,
}

impl<FFI: Copy> Compiler<FFI> {
    /// What has been gathered.
    pub open spec fn gathered(&self) -> Gathered<FFI> {
        Gathered { cells: cells_view(self.stack@), funcs: defs_view(self.func_defs@) }
    }

    /// The table of foreign operations.
    pub open spec fn table(&self) -> FfiNames<FFI> {
        ffi_view(self.ffi_defs@)
    }

    /// No function is declared twice.
    pub open spec fn wf(&self) -> bool {
        keys_unique(defs_view(self.func_defs@))
    }

    /// A compiler that has gathered nothing.
    pub fn new(ffi_defs: Vec<(String, FFI)>) -> (r: Self)
        ensures
            r.wf(),
            r.ffi_defs == ffi_defs,
            r.gathered() == (Gathered::<FFI> { cells: Seq::empty(), funcs: Seq::empty() }),
    {
        let r = Compiler { stack: Vec::new(), func_defs: Vec::new(), ffi_defs };
        proof {
            assert(r.gathered().cells =~= Seq::empty());
            assert(r.gathered().funcs =~= Seq::empty());
        }
        r
    }

    /// The foreign operation called `name`.
    fn lookup_ffi(&self, name: &String) -> (r: Option<FFI>)
        ensures
            match find_key(self.table(), name@) {
                Some(i) => r == Some(self.table()[i].1),
                None => r is None,
            },
    {
        let mut i: usize = 0;
        while i < self.ffi_defs.len()
            invariant
                i <= self.ffi_defs.len(),
                forall|j: int| 0 <= j < i ==> (#[trigger] self.table()[j]).0 != name@,
            decreases self.ffi_defs.len() - i,
        {
            if self.ffi_defs[i].0 == *name {
                proof {
                    lemma_find_key_at(self.table(), name@, i as int);
                }
                return Some(self.ffi_defs[i].1);
            }
            i += 1;
        }
        proof {
            lemma_find_key_none(self.table(), name@);
        }
        None
    }

    /// Adds one cell to the top level.
    fn emit(&mut self, cell: Cell<FFI>)
        ensures
            final(self).func_defs == old(self).func_defs,
            final(self).ffi_defs == old(self).ffi_defs,
            final(self).gathered().cells == old(self).gathered().cells.push(cell@),
    {
        proof {
            assert(cells_view(self.stack@.push(cell)) =~= cells_view(self.stack@).push(cell@));
        }
        self.stack.push(cell);
    }

    /// Adds cells to the top level.
    fn emit_all(&mut self, cells: Vec<Cell<FFI>>)
        ensures
            final(self).func_defs == old(self).func_defs,
            final(self).ffi_defs == old(self).ffi_defs,
            final(self).gathered().cells == old(self).gathered().cells + cells_view(cells@),
    {
        let mut cells = cells;
        proof {
            assert(cells_view(self.stack@ + cells@) =~= cells_view(self.stack@) + cells_view(
                cells@,
            ));
        }
        self.stack.append(&mut cells);
    }

    /// The cell that ends a call; see [`callee_cell`].
    fn callee(&self, callee: &Callee) -> (r: Result<Cell<FFI>, CompileError>)
        ensures
            match callee_cell(*callee, self.table()) {
                Ok(cell) => r is Ok && r->Ok_0@ == cell,
                Err(e) => r == Err::<Cell<FFI>, CompileError>(e),
            },
    {
        match callee {
            Callee::Ident(name) => match self.lookup_ffi(name) {
                Some(f) => Ok(Cell::Op(Op::FFI(f))),
                None => Ok(Cell::Op(Op::Call(name.clone()))),
            },
            Callee::Member(obj, prop) => {
                let mut func = obj.clone();
                func.append("_");
                func.append(prop.as_str());
                match self.lookup_ffi(&func) {
                    Some(f) => Ok(Cell::Op(Op::FFI(f))),
                    None => Err(CompileError::UnknownFunction),
                }
            },
            Callee::Other => Err(CompileError::Unsupported),
        }
    }

    /// Lowers an expression onto the top level. `wanted` says whether its
    /// value is used; see [`lower_expr`].
    pub fn eval_expr(&mut self, ex: &Expr, wanted: bool) -> (r: Result<(), CompileError>)
        ensures
            final(self).func_defs == old(self).func_defs,
            final(self).ffi_defs == old(self).ffi_defs,
            match lower_expr(*ex, old(self).table(), wanted) {
                Ok(cells) => {
                    &&& r is Ok
                    &&& final(self).gathered().cells == old(self).gathered().cells + cells
                },
                Err(e) => r == Err::<(), CompileError>(e),
            },
        decreases ex, 0nat,
    {
        let ghost start = self.gathered().cells;
        match ex {
            Expr::Unary(op, arg) => match op {
                UnaryOp::Minus => {
                    match self.eval_expr(&**arg, true) {
                        Err(e) => {
                            return Err(e);
                        },
                        Ok(_) => {},
                    }
                    self.emit(Cell::Val(CellData::from_bits(MINUS_ONE_BITS)));
                    self.emit(Cell::Op(Op::Mul));
                    proof {
                        let cells = lower_expr(**arg, old(self).table(), true)->Ok_0;
                        assert(self.gathered().cells =~= start + cells.push(
                            CellView::Val(CellData { bits: MINUS_ONE_BITS }),
                        ).push(CellView::Op(OpView::Mul)));
                    }
                    Ok(())
                },
                UnaryOp::Plus => {
                    proof {
                        assert(start + Seq::<CellView<FFI>>::empty() =~= start);
                    }
                    Ok(())
                },
                _ => Err(CompileError::Unsupported),
            },
            Expr::Bin(op, left, right) => {
                match self.eval_expr(&**left, true) {
                    Err(e) => {
                        return Err(e);
                    },
                    Ok(_) => {},
                }
                match self.eval_expr(&**right, true) {
                    Err(e) => {
                        return Err(e);
                    },
                    Ok(_) => {},
                }
                match binary_op::<FFI>(*op) {
                    None => Err(CompileError::Unsupported),
                    Some(cell) => {
                        let ghost shown = CellView::Op(cell@);
                        self.emit(Cell::Op(cell));
                        proof {
                            let l = lower_expr(**left, old(self).table(), true)->Ok_0;
                            let r = lower_expr(**right, old(self).table(), true)->Ok_0;
                            assert(self.gathered().cells =~= start + (l + r).push(shown));
                        }
                        Ok(())
                    },
                }
            },
            Expr::Assign(name, right) => {
                match self.eval_expr(&**right, true) {
                    Err(e) => {
                        return Err(e);
                    },
                    Ok(_) => {},
                }
                self.emit(Cell::Op(Op::SetVar(name.clone())));
                proof {
                    let cells = lower_expr(**right, old(self).table(), true)->Ok_0;
                    assert(self.gathered().cells =~= start + cells.push(
                        CellView::Op(OpView::SetVar(name@)),
                    ));
                }
                Ok(())
            },
            Expr::Call(callee, args) => {
                if wanted {
                    self.emit(Cell::Op(Op::Nruter));
                } else {
                    self.emit(Cell::Op(Op::PopRet));
                }
                match self.eval_args(args, 0) {
                    Err(e) => {
                        return Err(e);
                    },
                    Ok(_) => {},
                }
                match self.callee(callee) {
                    Err(e) => Err(e),
                    Ok(cell) => {
                        let ghost shown = cell@;
                        self.emit(cell);
                        proof {
                            let cells = lower_args(*args, 0, old(self).table())->Ok_0;
                            assert(self.gathered().cells =~= start + (seq![
                                call_prelude::<FFI>(wanted),
                            ] + cells).push(shown));
                        }
                        Ok(())
                    },
                }
            },
            Expr::Ident(name) => {
                self.emit(Cell::Op(Op::GetVar(name.clone())));
                proof {
                    assert(self.gathered().cells =~= start + seq![
                        CellView::<FFI>::Op(OpView::GetVar(name@)),
                    ]);
                }
                Ok(())
            },
            Expr::Lit(lit) => match lit {
                Lit::Str(s) => {
                    let bytes = s.as_str().as_bytes();
                    if bytes.len() > MAX_PACKED_LEN {
                        Err(CompileError::StringTooLong)
                    } else {
                        let cells = pack::<FFI>(bytes);
                        self.emit_all(cells);
                        Ok(())
                    }
                },
                Lit::Bool(b) => {
                    self.emit(Cell::Val(CellData::from_bool(*b)));
                    proof {
                        assert(self.gathered().cells =~= start + seq![
                            CellView::<FFI>::Val(CellData { bits: if *b { ONE_BITS } else { 0 } }),
                        ]);
                    }
                    Ok(())
                },
                Lit::Num(v) => {
                    self.emit(Cell::Val(*v));
                    proof {
                        assert(self.gathered().cells =~= start + seq![CellView::<FFI>::Val(*v)]);
                    }
                    Ok(())
                },
                _ => Err(CompileError::Unsupported),
            },
            Expr::Paren(inner) => self.eval_expr(&**inner, wanted),
            Expr::Other => Err(CompileError::Unsupported),
        }
    }

    /// Lowers the arguments from the `i`-th on; see [`lower_args`].
    fn eval_args(&mut self, args: &Vec<Expr>, i: usize) -> (r: Result<(), CompileError>)
        ensures
            final(self).func_defs == old(self).func_defs,
            final(self).ffi_defs == old(self).ffi_defs,
            match lower_args(*args, i as nat, old(self).table()) {
                Ok(cells) => {
                    &&& r is Ok
                    &&& final(self).gathered().cells == old(self).gathered().cells + cells
                },
                Err(e) => r == Err::<(), CompileError>(e),
            },
        decreases args, args.len() - i,
    {
        let ghost start = self.gathered().cells;
        if i >= args.len() {
            proof {
                assert(start + Seq::<CellView<FFI>>::empty() =~= start);
            }
            return Ok(());
        }
        match self.eval_expr(&args[i], true) {
            Err(e) => {
                return Err(e);
            },
            Ok(_) => {},
        }
        match self.eval_args(args, i + 1) {
            Err(e) => Err(e),
            Ok(_) => {
                proof {
                    let first = lower_expr(args[i as int], old(self).table(), true)->Ok_0;
                    let rest = lower_args(*args, (i + 1) as nat, old(self).table())->Ok_0;
                    assert(self.gathered().cells =~= start + (first + rest));
                }
                Ok(())
            },
        }
    }
}

/// Whether what has been gathered is within the capacities of a machine.
pub open spec fn fits<FFI>(g: Gathered<FFI>) -> bool {
    &&& g.cells.len() <= STACK_CAPACITY
    &&& g.funcs.len() <= FUNCS_CAPACITY
    &&& forall|i: int|
        0 <= i < g.funcs.len() ==> (#[trigger] g.funcs[i]).1.params.len() <= PARAMS_CAPACITY
            && g.funcs[i].1.body.len() <= STACK_CAPACITY
}

/// The machine that is built from what has been gathered.
pub open spec fn built<FFI>(g: Gathered<FFI>) -> VMState<FFI> {
    VMState {
        stack: g.cells,
        return_stack: Seq::empty(),
        return_addr: None,
        globals: Seq::empty(),
        locals: Seq::empty(),
        funcs: g.funcs,
        history: Seq::empty(),
    }
}

/// Where a lowering starts.
pub open spec fn nothing_gathered<FFI>() -> Gathered<FFI> {
    Gathered { cells: Seq::empty(), funcs: Seq::empty() }
}

impl<FFI: Copy> Compiler<FFI> {
    /// Puts a function into the table; see [`put_func`].
    fn put(&mut self, name: String, def: FuncDef<FFI>)
        requires
            old(self).wf(),
        ensures
            final(self).wf(),
            final(self).stack == old(self).stack,
            final(self).ffi_defs == old(self).ffi_defs,
            final(self).gathered().funcs == put_func(old(self).gathered().funcs, name@, def@),
    {
        let ghost before = defs_view(self.func_defs@);
        proof {
            lemma_find_key(before, name@);
        }
        let mut i: usize = 0;
        let mut at: Option<usize> = None;
        while i < self.func_defs.len() && at.is_none()
            invariant
                i <= self.func_defs.len(),
                before == defs_view(self.func_defs@),
                at is None ==> forall|j: int| 0 <= j < i ==> (#[trigger] before[j]).0 != name@,
                at matches Some(k) ==> k < self.func_defs.len() && find_key(before, name@) == Some(
                    k as int,
                ),
            decreases self.func_defs.len() - i + (if at is None { 1int } else { 0int }),
        {
            if self.func_defs[i].0 == name {
                proof {
                    lemma_find_key_at(before, name@, i as int);
                }
                at = Some(i);
            } else {
                i += 1;
            }
        }
        match at {
            Some(k) => {
                self.func_defs[k] = (name, def);
                proof {
                    assert(defs_view(self.func_defs@) =~= before.update(k as int, (name@, def@)));
                    assert forall|a: int, b: int|
                        0 <= a < b < defs_view(self.func_defs@).len() implies (
                    #[trigger] defs_view(self.func_defs@)[a]).0 != (#[trigger] defs_view(
                        self.func_defs@,
                    )[b]).0 by {
                        assert(before[a].0 != before[b].0);
                    }
                }
            },
            None => {
                proof {
                    lemma_find_key_none(before, name@);
                }
                self.func_defs.push((name, def));
                proof {
                    assert(defs_view(self.func_defs@) =~= before.push((name@, def@)));
                    assert forall|a: int, b: int|
                        0 <= a < b < defs_view(self.func_defs@).len() implies (
                    #[trigger] defs_view(self.func_defs@)[a]).0 != (#[trigger] defs_view(
                        self.func_defs@,
                    )[b]).0 by {
                        if b < before.len() {
                            assert(before[a].0 != before[b].0);
                        } else {
                            assert(before[a].0 != name@);
                        }
                    }
                }
            },
        }
    }

    /// Lowers a statement; see [`lower_stmt`].
    pub fn visit_stmt(&mut self, s: &Stmt) -> (r: Result<(), CompileError>)
        requires
            old(self).wf(),
        ensures
            final(self).ffi_defs == old(self).ffi_defs,
            match lower_stmt(*s, old(self).table(), old(self).gathered()) {
                Ok(g) => r is Ok && final(self).wf() && final(self).gathered() == g,
                Err(e) => r == Err::<(), CompileError>(e),
            },
        decreases s, 0nat,
    {
        match s {
            Stmt::Fn(decl) => {
                let mut body: Vec<Cell<FFI>> = Vec::new();
                body.push(Cell::Null);
                body.push(Cell::Op(Op::Return));
                let mut inner_defs: Vec<(String, FuncDef<FFI>)> = Vec::new();
                core::mem::swap(&mut self.stack, &mut body);
                core::mem::swap(&mut self.func_defs, &mut inner_defs);
                proof {
                    assert(self.gathered().cells =~= seq![
                        CellView::<FFI>::Null,
                        CellView::Op(OpView::Return),
                    ]);
                    assert(self.gathered().funcs =~= Seq::empty());
                }
                match self.visit_body(&decl.body, decl.body.len()) {
                    Err(e) => {
                        return Err(e);
                    },
                    Ok(_) => {},
                }
                core::mem::swap(&mut self.stack, &mut body);
                core::mem::swap(&mut self.func_defs, &mut inner_defs);
                let mut params: Vec<String> = Vec::new();
                let mut i: usize = 0;
                while i < decl.params.len()
                    invariant
                        i <= decl.params.len(),
                        params@ == decl.params@.take(i as int),
                    decreases decl.params.len() - i,
                {
                    params.push(decl.params[i].clone());
                    assert(decl.params@.take(i as int + 1) =~= decl.params@.take(i as int).push(
                        decl.params@[i as int],
                    ));
                    i += 1;
                }
                assert(decl.params@.take(decl.params@.len() as int) =~= decl.params@);
                self.put(decl.name.clone(), FuncDef::new(params, body));
                Ok(())
            },
            Stmt::If(test, cons, alt) => {
                match self.eval_expr(test, true) {
                    Err(e) => {
                        return Err(e);
                    },
                    Ok(_) => {},
                }
                self.emit(Cell::Op(Op::If));
                match self.visit_stmt(&**cons) {
                    Err(e) => {
                        return Err(e);
                    },
                    Ok(_) => {},
                }
                match alt {
                    None => {},
                    Some(other) => {
                        self.emit(Cell::Op(Op::Else));
                        match self.visit_stmt(&**other) {
                            Err(e) => {
                                return Err(e);
                            },
                            Ok(_) => {},
                        }
                    },
                }
                self.emit(Cell::Op(Op::Then));
                Ok(())
            },
            Stmt::Expr(e) => self.eval_expr(e, false),
            Stmt::Return(arg) => match arg {
                None => Ok(()),
                Some(e) => {
                    match self.eval_expr(e, true) {
                        Err(e) => {
                            return Err(e);
                        },
                        Ok(_) => {},
                    }
                    self.emit(Cell::Op(Op::Return));
                    Ok(())
                },
            },
            Stmt::Var(decls) => self.visit_decls(decls, 0),
            Stmt::Block(stmts) => self.visit_stmts(stmts, 0),
            Stmt::Export(inner) => self.visit_stmt(&**inner),
            Stmt::Other => Err(CompileError::Unsupported),
        }
    }

    /// Lowers the declarations from the `i`-th on; see [`lower_decls`].
    fn visit_decls(&mut self, decls: &Vec<VarDeclarator>, i: usize) -> (r: Result<(), CompileError>)
        requires
            old(self).wf(),
        ensures
            final(self).ffi_defs == old(self).ffi_defs,
            match lower_decls(*decls, i as nat, old(self).table(), old(self).gathered()) {
                Ok(g) => r is Ok && final(self).wf() && final(self).gathered() == g,
                Err(e) => r == Err::<(), CompileError>(e),
            },
        decreases decls, decls.len() - i,
    {
        if i >= decls.len() {
            return Ok(());
        }
        let d = &decls[i];
        match &d.init {
            None => {},
            Some(e) => {
                match self.eval_expr(e, true) {
                    Err(e) => {
                        return Err(e);
                    },
                    Ok(_) => {},
                }
                self.emit(Cell::Op(Op::SetVar(d.name.clone())));
            },
        }
        self.emit(Cell::Op(Op::DeclVar(d.name.clone())));
        self.visit_decls(decls, i + 1)
    }

    /// Lowers the statements from the `i`-th on, in order; see
    /// [`lower_stmts`].
    pub fn visit_stmts(&mut self, stmts: &Vec<Stmt>, i: usize) -> (r: Result<(), CompileError>)
        requires
            old(self).wf(),
        ensures
            final(self).ffi_defs == old(self).ffi_defs,
            match lower_stmts(*stmts, i as nat, old(self).table(), old(self).gathered()) {
                Ok(g) => r is Ok && final(self).wf() && final(self).gathered() == g,
                Err(e) => r == Err::<(), CompileError>(e),
            },
        decreases stmts, stmts.len() - i,
    {
        if i >= stmts.len() {
            return Ok(());
        }
        match self.visit_stmt(&stmts[i]) {
            Err(e) => Err(e),
            Ok(_) => self.visit_stmts(stmts, i + 1),
        }
    }

    /// Lowers the first `n` statements, the last of them first; see
    /// [`lower_body`].
    fn visit_body(&mut self, stmts: &Vec<Stmt>, n: usize) -> (r: Result<(), CompileError>)
        requires
            old(self).wf(),
        ensures
            final(self).ffi_defs == old(self).ffi_defs,
            match lower_body(*stmts, n as nat, old(self).table(), old(self).gathered()) {
                Ok(g) => r is Ok && final(self).wf() && final(self).gathered() == g,
                Err(e) => r == Err::<(), CompileError>(e),
            },
        decreases stmts, n,
    {
        if n == 0 || n > stmts.len() {
            return Ok(());
        }
        match self.visit_stmt(&stmts[n - 1]) {
            Err(e) => Err(e),
            Ok(_) => self.visit_body(stmts, n - 1),
        }
    }

    /// Whether what has been gathered is within the capacities of a machine;
    /// see [`fits`].
    pub fn check_fits(&self) -> (r: bool)
        ensures
            r == fits(self.gathered()),
    {
        if self.stack.len() > STACK_CAPACITY || self.func_defs.len() > FUNCS_CAPACITY {
            return false;
        }
        let ghost funcs = self.gathered().funcs;
        let mut i: usize = 0;
        while i < self.func_defs.len()
            invariant
                i <= self.func_defs.len(),
                funcs == defs_view(self.func_defs@),
                forall|j: int|
                    0 <= j < i ==> (#[trigger] funcs[j]).1.params.len() <= PARAMS_CAPACITY
                        && funcs[j].1.body.len() <= STACK_CAPACITY,
            decreases self.func_defs.len() - i,
        {
            assert(funcs[i as int].1 == self.func_defs@[i as int].1@);
            if self.func_defs[i].1.params.len() > PARAMS_CAPACITY
                || self.func_defs[i].1.stack.len() > STACK_CAPACITY {
                return false;
            }
            i += 1;
        }
        true
    }

    /// Builds the machine that holds what has been gathered, with the given
    /// runtime. `TooLarge` when the program exceeds a capacity of the
    /// machine.
    pub fn into_vm<RT>(self, rt: RT) -> (r: Result<VM<FFI, RT>, CompileError>) where FFI: FFIOps<RT>
        requires
            self.wf(),
        ensures
            match r {
                Ok(vm) => fits(self.gathered()) && vm.wf() && vm.runtime == rt && vm@ == built(
                    self.gathered(),
                ),
                Err(e) => e == CompileError::TooLarge && !fits(self.gathered()),
            },
    {
        if !self.check_fits() {
            return Err(CompileError::TooLarge);
        }
        let ghost funcs = self.gathered().funcs;
        let funcs_table = FuncTable { entries: self.func_defs };
        proof {
            assert(funcs_table@ =~= funcs);
            assert forall|i: int| 0 <= i < funcs_table.entries@.len() implies (
            #[trigger] funcs_table.entries@[i]).1.wf() by {
                assert(funcs[i].1 == funcs_table.entries@[i].1@);
            }
        }
        Ok(VM::new(self.stack, funcs_table, rt))
    }
}

/// Lowers a program and builds the machine that holds it: the cells of the
/// top-level statements on the data stack, the declared functions in the
/// function table. Fails with the first error of the lowering, or with
/// `TooLarge` when the program exceeds a capacity of the machine.
pub fn compile<FFI: FFIOps<RT>, RT>(program: &Vec<Stmt>, ffi_defs: Vec<(String, FFI)>, rt: RT) -> (r: Result<
    VM<FFI, RT>,
    CompileError,
>)
    ensures
        match lower_stmts(*program, 0, ffi_view(ffi_defs@), nothing_gathered()) {
            Err(e) => r == Err::<VM<FFI, RT>, CompileError>(e),
            Ok(g) => if fits(g) {
                r matches Ok(vm) && vm.wf() && vm.runtime == rt && vm@ == built(g)
            } else {
                r == Err::<VM<FFI, RT>, CompileError>(CompileError::TooLarge)
            },
        },
{
    let mut compiler = Compiler::new(ffi_defs);
    match compiler.visit_stmts(program, 0) {
        Err(e) => Err(e),
        Ok(_) => compiler.into_vm(rt),
    }
}

} // verus!
