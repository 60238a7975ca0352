//! Cells, operations and errors of the bytecode machine, and the trait a host
//! implements for its foreign operations.

use crate::forth::cell_data::CellData;
use vstd::prelude::*;

verus! {

/// A name, as specifications see it.
pub type Name = Seq<char>;

/// How a foreign operation takes one of its parameters from the data stack.
#[derive(Clone, Copy, Debug, PartialEq, Eq, Structural)]
pub enum Param {
    /// One cell, after the driver has resolved what lies on top.
    Normal,
    /// A packed string: its length marker and the raw words below it.
    DynPacked,
}

/// What can go wrong when a function is looked up or called.
#[derive(Clone, Copy, Debug, PartialEq, Eq, Structural)]
pub enum FFIError {
    FunctionNotFound,
    NumArgs,
}

/// What was found where a number was required.
#[derive(Clone, Copy, Debug, PartialEq, Eq, Structural)]
pub enum ValError {
    Op,
    Raw,
    Null,
}

/// Errors of the machine.
#[derive(Clone, Copy, Debug, PartialEq, Eq, Structural)]
pub enum VMError {
    /// A cell handed to a foreign operation was not a number.
    TypeCoercion,
    /// A function was not found, or a foreign operation got the wrong number
    /// of arguments.
    FFI(FFIError),
    /// The instruction stream does not have the shape the operation needs.
    Malformed,
    /// A stack held fewer cells than the operation needs.
    Underflow,
    /// A stack, a scope or the scope stack is full.
    Overflow,
    /// The variable is not declared, or has no value yet.
    VarNotFound,
    /// The executor holds no machine.
    Vanished,
    /// A cell popped as an operand was not a number.
    Val(ValError),
    /// Division or remainder by zero.
    DivByZero,
    /// The driver's step budget ran out.
    Exhausted,
}

/// An operation.
#[derive(Debug, PartialEq, Eq)]
pub enum Op<FFI> {
    /// Moves the top of the data stack to the return stack.
    Return,
    /// Moves the top of the return stack to the data stack.
    Nruter,
    /// Cuts the data stack back to the saved return address.
    ExitFn,
    /// Drops the top of the return stack.
    PopRet,
    EqEq,
    NotEq,
    Lt,
    LtEq,
    Gt,
    GtEq,
    Add,
    Sub,
    Mul,
    Div,
    Mod,
    And,
    Or,
    If,
    Then,
    Else,
    /// Calls the function whose name lies on the data stack as a packed string.
    CallDyn,
    Call(String),
    DeclVar(String),
    SetVar(String),
    GetVar(String),
    FFI(FFI),
}

/// An element of the data stack or of the return stack.
#[derive(Debug, PartialEq, Eq)]
pub enum Cell<FFI> {
    Val(CellData),
    Raw(i32),
    Op(Op<FFI>),
    Null,
}

/// An operation, with names as sequences of characters.
pub enum OpView<FFI> {
    Return,
    Nruter,
    ExitFn,
    PopRet,
    EqEq,
    NotEq,
    Lt,
    LtEq,
    Gt,
    GtEq,
    Add,
    Sub,
    Mul,
    Div,
    Mod,
    And,
    Or,
    If,
    Then,
    Else,
    CallDyn,
    Call(Name),
    DeclVar(Name),
    SetVar(Name),
    GetVar(Name),
    FFI(FFI),
}

/// A cell, with names as sequences of characters.
pub enum CellView<FFI> {
    Val(CellData),
    Raw(i32),
    Op(OpView<FFI>),
    Null,
}

impl<FFI> View for Op<FFI> {
    type V = OpView<FFI>;

    open spec fn view(&self) -> OpView<FFI> {
        match *self {
            Op::Return => OpView::Return,
            Op::Nruter => OpView::Nruter,
            Op::ExitFn => OpView::ExitFn,
            Op::PopRet => OpView::PopRet,
            Op::EqEq => OpView::EqEq,
            Op::NotEq => OpView::NotEq,
            Op::Lt => OpView::Lt,
            Op::LtEq => OpView::LtEq,
            Op::Gt => OpView::Gt,
            Op::GtEq => OpView::GtEq,
            Op::Add => OpView::Add,
            Op::Sub => OpView::Sub,
            Op::Mul => OpView::Mul,
            Op::Div => OpView::Div,
            Op::Mod => OpView::Mod,
            Op::And => OpView::And,
            Op::Or => OpView::Or,
            Op::If => OpView::If,
            Op::Then => OpView::Then,
            Op::Else => OpView::Else,
            Op::CallDyn => OpView::CallDyn,
            Op::Call(n) => OpView::Call(n@),
            Op::DeclVar(n) => OpView::DeclVar(n@),
            Op::SetVar(n) => OpView::SetVar(n@),
            Op::GetVar(n) => OpView::GetVar(n@),
            Op::FFI(f) => OpView::FFI(f),
        }
    }
}

impl<FFI> View for Cell<FFI> {
    type V = CellView<FFI>;

    open spec fn view(&self) -> CellView<FFI> {
        match *self {
            Cell::Val(v) => CellView::Val(v),
            Cell::Raw(w) => CellView::Raw(w),
            Cell::Op(op) => CellView::Op(op@),
            Cell::Null => CellView::Null,
        }
    }
}

/// The views of a sequence of cells.
pub open spec fn cells_view<FFI>(cells: Seq<Cell<FFI>>) -> Seq<CellView<FFI>> {
    cells.map_values(|c: Cell<FFI>| c@)
}

/// The views of a sequence of names.
pub open spec fn names_view(names: Seq<String>) -> Seq<Name> {
    names.map_values(|n: String| n@)
}

impl<FFI: Copy> Clone for Op<FFI> {
    fn clone(&self) -> (r: Self)
        ensures
            r == *self,
    {
        match self {
            Op::Return => Op::Return,
            Op::Nruter => Op::Nruter,
            Op::ExitFn => Op::ExitFn,
            Op::PopRet => Op::PopRet,
            Op::EqEq => Op::EqEq,
            Op::NotEq => Op::NotEq,
            Op::Lt => Op::Lt,
            Op::LtEq => Op::LtEq,
            Op::Gt => Op::Gt,
            Op::GtEq => Op::GtEq,
            Op::Add => Op::Add,
            Op::Sub => Op::Sub,
            Op::Mul => Op::Mul,
            Op::Div => Op::Div,
            Op::Mod => Op::Mod,
            Op::And => Op::And,
            Op::Or => Op::Or,
            Op::If => Op::If,
            Op::Then => Op::Then,
            Op::Else => Op::Else,
            Op::CallDyn => Op::CallDyn,
            Op::Call(n) => Op::Call(n.clone()),
            Op::DeclVar(n) => Op::DeclVar(n.clone()),
            Op::SetVar(n) => Op::SetVar(n.clone()),
            Op::GetVar(n) => Op::GetVar(n.clone()),
            Op::FFI(f) => Op::FFI(*f),
        }
    }
}

impl<FFI: Copy> Clone for Cell<FFI> {
    fn clone(&self) -> (r: Self)
        ensures
            r == *self,
    {
        match self {
            Cell::Val(v) => Cell::Val(*v),
            Cell::Raw(w) => Cell::Raw(*w),
            Cell::Op(op) => Cell::Op(op.clone()),
            Cell::Null => Cell::Null,
        }
    }
}

impl<FFI> Cell<FFI> {
    /// The cell that holds the integer `n`.
    pub fn val(n: i32) -> (r: Self)
        requires
            crate::forth::cell_data::INT_MIN <= n <= crate::forth::cell_data::INT_MAX,
        ensures
            r == Cell::<FFI>::Val(CellData { bits: (n * 0x1_0000) as i32 }),
    {
        Cell::Val(CellData::from_num(n))
    }

    /// The number in the cell, or what stands there in its place.
    pub fn checked_val(&self) -> (r: Result<CellData, ValError>)
        ensures
            r == checked_val_spec(self@),
    {
        match self {
            Cell::Val(val) => Ok(*val),
            Cell::Op(_) => Err(ValError::Op),
            Cell::Raw(_) => Err(ValError::Raw),
            Cell::Null => Err(ValError::Null),
        }
    }

    /// The number in the cell, for a foreign operation's argument.
    pub fn try_val(&self) -> (r: Result<CellData, VMError>)
        ensures
            r == try_val_spec(self@),
    {
        match self {
            Cell::Val(val) => Ok(*val),
            _ => Err(VMError::TypeCoercion),
        }
    }

    /// The number in the cell, which must hold one.
    pub fn unwrap_val(&self) -> (r: CellData)
        requires
            self@ is Val,
        ensures
            self@ == CellView::<FFI>::Val(r),
    {
        match self {
            Cell::Val(val) => *val,
            _ => CellData::zero(),
        }
    }

    /// The raw word in the cell, which must hold one.
    pub fn unwrap_raw(&self) -> (r: i32)
        requires
            self@ is Raw,
        ensures
            self@ == CellView::<FFI>::Raw(r),
    {
        match self {
            Cell::Raw(val) => *val,
            _ => 0,
        }
    }
}

/// See [`Cell::checked_val`].
pub open spec fn checked_val_spec<FFI>(c: CellView<FFI>) -> Result<CellData, ValError> {
    match c {
        CellView::Val(v) => Ok(v),
        CellView::Op(_) => Err(ValError::Op),
        CellView::Raw(_) => Err(ValError::Raw),
        CellView::Null => Err(ValError::Null),
    }
}

/// See [`Cell::try_val`].
pub open spec fn try_val_spec<FFI>(c: CellView<FFI>) -> Result<CellData, VMError> {
    match c {
        CellView::Val(v) => Ok(v),
        _ => Err(VMError::TypeCoercion),
    }
}

/// The answer of a host as specifications see it.
pub open spec fn answer_view<FFI>(res: Result<Cell<FFI>, VMError>) -> Result<CellView<FFI>, VMError> {
    match res {
        Ok(c) => Ok(c@),
        Err(e) => Err(e),
    }
}

/// The foreign operations of a host, over its runtime `RT`.
///
/// An operation says which answers it can give for its parameters, and
/// `dispatch` gives one of them. Where the answer rests on the host alone,
/// every answer is allowed, and the machine works with whatever comes back.
pub trait FFIOps<RT>: Sized + Copy {
    /// The parameter kinds, as specifications see them.
    spec fn call_info_spec(&self) -> Seq<Param>;

    /// Whether `answer` is an answer of this operation for `params`.
    spec fn allows(&self, params: Seq<CellView<Self>>, answer: Result<CellView<Self>, VMError>) -> bool;

    /// The parameter kinds of this operation, in the order in which the
    /// machine takes them from the data stack.
    fn call_info(&self) -> (info: Vec<Param>)
        ensures
            info@ == self.call_info_spec(),
    ;

    /// Performs the operation on the runtime. `params` holds what the machine
    /// took from the stack, in the order of `call_info`.
    fn dispatch(&self, rt: &mut RT, params: &Vec<Cell<Self>>) -> (r: Result<Cell<Self>, VMError>)
        ensures
            self.allows(cells_view(params@), answer_view(r)),
    ;
}

} // verus!
