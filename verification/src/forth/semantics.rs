//! What the machine does, as mathematical functions on its state.
//!
//! The driver looks at the top of the data stack; while an operation lies
//! there it takes it off and evaluates it. Evaluation may drive the stack
//! again to resolve an operand, so the functions below call each other; the
//! `fuel` bounds how deep that goes and how often each loop turns.
//!
//! A foreign call is answered by the host. Here the answers come from an
//! oracle: the `n`-th call made since the machine was built gets the oracle's
//! `n`-th answer. Each call is also written into the state's history, with
//! the operation, the parameters handed over, and the answer.

use crate::forth::cell::{
    checked_val_spec, CellView, FFIError, FFIOps, Name, OpView, Param, VMError,
};
use crate::forth::cell_data::{add_bits, div_bits, mul_bits, rem_bits, sub_bits, CellData, ONE_BITS};
use crate::forth::store::{find_key, store_get, store_insert, Funcs, Store, STACK_CAPACITY};
use crate::forth::util::{packed_cells, unpack_str_spec};
use vstd::prelude::*;

verus! {

/// Most cells of the return stack.
pub const RETURN_STACK_CAPACITY: usize = 4;

/// Most scopes of local variables, that is, most calls in progress.
pub const SCOPES_CAPACITY: usize = 8;

/// Longest name, in bytes, that a dynamic call takes from the stack.
pub const NAME_CAPACITY: usize = 32;

/// What a host answered to a foreign call.
pub type Answer<FFI> = Result<CellView<FFI>, VMError>;

/// The answers of the host, by the number of the call.
pub type Oracle<FFI> = spec_fn(nat) -> Answer<FFI>;

/// One foreign call: what was called, with what, and what came back.
pub struct ForeignCall<FFI> {
    pub op: FFI,
    pub params: Seq<CellView<FFI>>,
    pub answer: Answer<FFI>,
}

/// The state of the machine, without the host's runtime.
pub struct VMState<FFI> {
    pub stack: Seq<CellView<FFI>>,
    pub return_stack: Seq<CellView<FFI>>,
    pub return_addr: Option<usize>,
    pub globals: Store,
    pub locals: Seq<Store>,
    pub funcs: Funcs<FFI>,
    pub history: Seq<ForeignCall<FFI>>,
}

/// Whether both stacks and the stack of scopes are within their capacities.
pub open spec fn within_capacity<FFI>(s: VMState<FFI>) -> bool {
    &&& s.stack.len() <= STACK_CAPACITY
    &&& s.return_stack.len() <= RETURN_STACK_CAPACITY
    &&& s.locals.len() <= SCOPES_CAPACITY
}

/// A state after some work, and whether the work succeeded.
pub type Step<FFI> = (VMState<FFI>, Result<(), VMError>);

/// Whether the oracle gives the answers that the history records.
pub open spec fn agrees<FFI>(o: Oracle<FFI>, history: Seq<ForeignCall<FFI>>) -> bool {
    forall|i: int| 0 <= i < history.len() ==> o(i as nat) == (#[trigger] history[i]).answer
}

/// Whether every answer that the history records is one that the operation
/// allows for the parameters it was called with.
pub open spec fn allowed<FFI: FFIOps<RT>, RT>(history: Seq<ForeignCall<FFI>>) -> bool {
    forall|i: int|
        0 <= i < history.len() ==> (#[trigger] history[i]).op.allows(
            history[i].params,
            history[i].answer,
        )
}

/// Whether `later` continues `earlier`.
pub open spec fn extends<FFI>(earlier: Seq<ForeignCall<FFI>>, later: Seq<ForeignCall<FFI>>) -> bool {
    &&& earlier.len() <= later.len()
    &&& forall|i: int| 0 <= i < earlier.len() ==> #[trigger] earlier[i] == later[i]
}

/// An oracle that agrees with a history agrees with what the history
/// continues.
pub proof fn lemma_agrees_earlier<FFI>(
    o: Oracle<FFI>,
    earlier: Seq<ForeignCall<FFI>>,
    later: Seq<ForeignCall<FFI>>,
)
    requires
        agrees(o, later),
        extends(earlier, later),
    ensures
        agrees(o, earlier),
{
    assert forall|i: int| 0 <= i < earlier.len() implies o(i as nat) == (
    #[trigger] earlier[i]).answer by {
        assert(earlier[i] == later[i]);
    }
}

/// Whether an operation lies on top of the stack.
pub open spec fn top_is_op<FFI>(stack: Seq<CellView<FFI>>) -> bool {
    stack.len() > 0 && stack.last() is Op
}

/// Whether `op` takes two numbers and gives one.
pub open spec fn is_binary<FFI>(op: OpView<FFI>) -> bool {
    match op {
        OpView::EqEq | OpView::NotEq | OpView::Lt | OpView::LtEq | OpView::Gt | OpView::GtEq
        | OpView::Add | OpView::Sub | OpView::Mul | OpView::Div | OpView::Mod | OpView::And
        | OpView::Or => true,
        _ => false,
    }
}

/// 1 for `true`, 0 for `false`.
pub open spec fn truth(b: bool) -> CellData {
    CellData { bits: if b { ONE_BITS } else { 0 } }
}

/// The result of the binary operation `op` on `x` and `y`, `x` being the
/// operand that was pushed first.
pub open spec fn apply_binary<FFI>(op: OpView<FFI>, x: CellData, y: CellData) -> Result<
    CellData,
    VMError,
> {
    match op {
        OpView::EqEq => Ok(truth(x.bits == y.bits)),
        OpView::NotEq => Ok(truth(x.bits != y.bits)),
        OpView::Lt => Ok(truth(x.bits < y.bits)),
        OpView::LtEq => Ok(truth(x.bits <= y.bits)),
        OpView::Gt => Ok(truth(x.bits > y.bits)),
        OpView::GtEq => Ok(truth(x.bits >= y.bits)),
        OpView::Add => Ok(CellData { bits: add_bits(x.bits, y.bits) }),
        OpView::Sub => Ok(CellData { bits: sub_bits(x.bits, y.bits) }),
        OpView::Mul => Ok(CellData { bits: mul_bits(x.bits, y.bits) }),
        OpView::Div => if y.bits == 0 {
            Err(VMError::DivByZero)
        } else {
            Ok(CellData { bits: div_bits(x.bits, y.bits) })
        },
        OpView::Mod => match rem_bits(x.bits, y.bits) {
            Some(b) => Ok(CellData { bits: b }),
            None => Err(VMError::DivByZero),
        },
        OpView::And => Ok(CellData { bits: x.bits & y.bits }),
        OpView::Or => Ok(CellData { bits: x.bits | y.bits }),
        _ => Err(VMError::Malformed),
    }
}

/// The value of `name`: the innermost scope is asked first, then the globals.
pub open spec fn lookup<FFI>(s: VMState<FFI>, name: Name) -> Option<Option<CellData>> {
    if s.locals.len() > 0 && store_get(s.locals.last(), name) is Some {
        store_get(s.locals.last(), name)
    } else {
        store_get(s.globals, name)
    }
}

/// The state after `name` was given the value `v`: in the innermost scope
/// if that declares the name, else among the globals, where the name is
/// created if it is new. Fails with `Overflow` when the globals are full.
pub open spec fn assign<FFI>(s: VMState<FFI>, name: Name, v: CellData) -> Step<FFI> {
    if s.locals.len() > 0 && find_key(s.locals.last(), name) is Some {
        let i = find_key(s.locals.last(), name)->Some_0;
        let scope = s.locals.last().update(i, (name, Some(v)));
        (VMState { locals: s.locals.update(s.locals.len() - 1, scope), ..s }, Ok(()))
    } else {
        match store_insert(s.globals, name, Some(v)) {
            Some(globals) => (VMState { globals, ..s }, Ok(())),
            None => (s, Err(VMError::Overflow)),
        }
    }
}

/// The state after `name` was declared, without a value, in the current
/// scope: the innermost local scope, or the globals outside every call.
/// Fails with `Overflow` when that scope is full.
pub open spec fn declare<FFI>(s: VMState<FFI>, name: Name) -> Step<FFI> {
    if s.locals.len() > 0 {
        match store_insert(s.locals.last(), name, None) {
            Some(scope) => (
                VMState { locals: s.locals.update(s.locals.len() - 1, scope), ..s },
                Ok(()),
            ),
            None => (s, Err(VMError::Overflow)),
        }
    } else {
        match store_insert(s.globals, name, None) {
            Some(globals) => (VMState { globals, ..s }, Ok(())),
            None => (s, Err(VMError::Overflow)),
        }
    }
}

/// The state after `cell` was pushed on the data stack; `Overflow` when the
/// stack is full.
pub open spec fn push_checked<FFI>(s: VMState<FFI>, cell: CellView<FFI>) -> Step<FFI> {
    if s.stack.len() >= STACK_CAPACITY {
        (s, Err(VMError::Overflow))
    } else {
        (VMState { stack: s.stack.push(cell), ..s }, Ok(()))
    }
}

/// The state after `cell` was pushed on the return stack; `Overflow` when
/// that stack is full.
pub open spec fn push_return_checked<FFI>(s: VMState<FFI>, cell: CellView<FFI>) -> Step<FFI> {
    if s.return_stack.len() >= RETURN_STACK_CAPACITY {
        (s, Err(VMError::Overflow))
    } else {
        (VMState { return_stack: s.return_stack.push(cell), ..s }, Ok(()))
    }
}

/// `ExitFn`: the data stack is cut back to the saved return address, which
/// is forgotten; `Malformed` when none is saved.
pub open spec fn eval_exit<FFI>(s: VMState<FFI>) -> Step<FFI> {
    match s.return_addr {
        Some(ret) => (
            VMState {
                stack: if ret < s.stack.len() {
                    s.stack.take(ret as int)
                } else {
                    s.stack
                },
                return_addr: None,
                ..s
            },
            Ok(()),
        ),
        None => (s, Err(VMError::Malformed)),
    }
}

/// Moves the top of the data stack to the return stack: `Underflow` when
/// the data stack is empty; `Overflow`, with the cell gone, when the return
/// stack is full.
pub open spec fn move_to_return<FFI>(s: VMState<FFI>) -> Step<FFI> {
    if s.stack.len() == 0 {
        (s, Err(VMError::Underflow))
    } else {
        push_return_checked(VMState { stack: s.stack.drop_last(), ..s }, s.stack.last())
    }
}

/// Takes the top cell off as a number. The cell is gone also when it is no
/// number.
pub open spec fn pop_val<FFI>(s: VMState<FFI>) -> (VMState<FFI>, Result<CellData, VMError>) {
    if s.stack.len() == 0 {
        (s, Err(VMError::Underflow))
    } else {
        let rest = VMState { stack: s.stack.drop_last(), ..s };
        match checked_val_spec(s.stack.last()) {
            Ok(v) => (rest, Ok(v)),
            Err(e) => (rest, Err(VMError::Val(e))),
        }
    }
}

/// The position of the topmost `If`.
pub open spec fn find_if<FFI>(stack: Seq<CellView<FFI>>) -> Option<int>
    decreases stack.len(),
{
    if stack.len() == 0 {
        None
    } else if stack.last() == CellView::<FFI>::Op(OpView::If) {
        Some(stack.len() - 1)
    } else {
        find_if(stack.drop_last())
    }
}

/// The position of the lowest `Else` at or above `from`.
pub open spec fn find_else<FFI>(stack: Seq<CellView<FFI>>, from: int) -> Option<int>
    decreases stack.len() - from,
{
    if from < 0 || from >= stack.len() {
        None
    } else if stack[from] == CellView::<FFI>::Op(OpView::Else) {
        Some(from)
    } else {
        find_else(stack, from + 1)
    }
}

/// The parts of a conditional whose `Then` was just taken off the stack.
pub struct Conditional<FFI> {
    /// What lies below the `If`: the condition is computed from its top.
    pub base: Seq<CellView<FFI>>,
    /// The cells between `If` and `Else`, or up to the top without an `Else`.
    pub consequent: Seq<CellView<FFI>>,
    /// The cells above the `Else`; empty without one.
    pub alternative: Seq<CellView<FFI>>,
}

/// Splits the stack at the topmost `If` and at the lowest `Else` above it.
/// `None` when there is no `If`, when nothing lies below it, or when the
/// consequent is empty.
pub open spec fn split_conditional<FFI>(stack: Seq<CellView<FFI>>) -> Option<Conditional<FFI>> {
    match find_if(stack) {
        None => None,
        Some(if_idx) => {
            let end = match find_else(stack, if_idx + 1) {
                Some(else_idx) => else_idx,
                None => stack.len() as int,
            };
            if if_idx == 0 || end == if_idx + 1 {
                None
            } else {
                Some(
                    Conditional {
                        base: stack.take(if_idx),
                        consequent: stack.subrange(if_idx + 1, end),
                        alternative: if end < stack.len() {
                            stack.skip(end + 1)
                        } else {
                            Seq::empty()
                        },
                    },
                )
            }
        },
    }
}

/// The branch that the condition `c` selects: the consequent for exactly 1,
/// else the alternative.
pub open spec fn selected_branch<FFI>(
    consequent: Seq<CellView<FFI>>,
    alternative: Seq<CellView<FFI>>,
    c: CellData,
) -> Seq<CellView<FFI>> {
    if c.bits == ONE_BITS {
        consequent
    } else {
        alternative
    }
}

/// Ends a conditional: the condition on top of the stack is taken off and
/// the selected branch put in its place. `Malformed` when no number lies on
/// top, `Overflow` when the branch does not fit.
pub open spec fn splice_branch<FFI>(
    s: VMState<FFI>,
    consequent: Seq<CellView<FFI>>,
    alternative: Seq<CellView<FFI>>,
) -> Step<FFI> {
    if s.stack.len() == 0 {
        (s, Err(VMError::Malformed))
    } else {
        match s.stack.last() {
            CellView::Val(c) => {
                let branch = selected_branch(consequent, alternative, c);
                if s.stack.len() - 1 + branch.len() > STACK_CAPACITY {
                    (s, Err(VMError::Overflow))
                } else {
                    (VMState { stack: s.stack.drop_last() + branch, ..s }, Ok(()))
                }
            },
            _ => (s, Err(VMError::Malformed)),
        }
    }
}

/// The text of at most `capacity` bytes that lies on the stack as a packed
/// string, and the stack below it. `None` when no such packed string of
/// valid UTF-8 lies on top.
pub open spec fn take_text<FFI>(stack: Seq<CellView<FFI>>, capacity: int) -> Option<
    (Seq<char>, Seq<CellView<FFI>>),
> {
    if stack.len() == 0 {
        None
    } else {
        match packed_cells(stack.last()) {
            None => None,
            Some(n) => if n > stack.len() {
                None
            } else {
                match unpack_str_spec(stack.skip(stack.len() - n), capacity) {
                    None => None,
                    Some(text) => Some((text, stack.take(stack.len() - n))),
                }
            },
        }
    }
}

/// The name that a dynamic call takes from the stack: a packed string of
/// at most 32 bytes.
pub open spec fn take_name<FFI>(stack: Seq<CellView<FFI>>) -> Option<(Name, Seq<CellView<FFI>>)> {
    take_text(stack, NAME_CAPACITY as int)
}

/// The state with the innermost scope closed.
pub open spec fn leave_scope<FFI>(s: VMState<FFI>) -> VMState<FFI> {
    if s.locals.len() > 0 {
        VMState { locals: s.locals.drop_last(), ..s }
    } else {
        s
    }
}

/// The driver: while an operation lies on top of the data stack, it is taken
/// off and evaluated. Ends in success when something else lies on top, or
/// nothing; ends with the first error; ends with `Exhausted` when the fuel
/// is used up.
pub open spec fn run_spec<FFI: FFIOps<RT>, RT>(s: VMState<FFI>, fuel: nat, o: Oracle<FFI>) -> Step<
    FFI,
>
    decreases fuel, 0nat, 0nat,
{
    if !top_is_op(s.stack) {
        (s, Ok(()))
    } else if fuel == 0 {
        (s, Err(VMError::Exhausted))
    } else {
        let op = s.stack.last()->Op_0;
        let (s1, r) = eval_spec::<FFI, RT>(
            VMState { stack: s.stack.drop_last(), ..s },
            op,
            (fuel - 1) as nat,
            o,
        );
        match r {
            Err(e) => (s1, Err(e)),
            Ok(_) => run_spec::<FFI, RT>(s1, (fuel - 1) as nat, o),
        }
    }
}

/// Drives the stack, then takes the top cell off as a number.
pub open spec fn resolve_spec<FFI: FFIOps<RT>, RT>(s: VMState<FFI>, fuel: nat, o: Oracle<FFI>) -> (
    VMState<FFI>,
    Result<CellData, VMError>,
)
    decreases fuel, 1nat, 0nat,
{
    let (s1, r) = run_spec::<FFI, RT>(s, fuel, o);
    match r {
        Err(e) => (s1, Err(e)),
        Ok(_) => pop_val(s1),
    }
}

/// A binary operation: the second operand is resolved and taken off, then
/// the first, and the result is pushed.
pub open spec fn binary_spec<FFI: FFIOps<RT>, RT>(
    s: VMState<FFI>,
    op: OpView<FFI>,
    fuel: nat,
    o: Oracle<FFI>,
) -> Step<FFI>
    decreases fuel, 2nat, 0nat,
{
    let (s1, ry) = resolve_spec::<FFI, RT>(s, fuel, o);
    match ry {
        Err(e) => (s1, Err(e)),
        Ok(y) => {
            let (s2, rx) = resolve_spec::<FFI, RT>(s1, fuel, o);
            match rx {
                Err(e) => (s2, Err(e)),
                Ok(x) => match apply_binary(op, x, y) {
                    Err(e) => (s2, Err(e)),
                    Ok(v) => (VMState { stack: s2.stack.push(CellView::Val(v)), ..s2 }, Ok(())),
                },
            }
        },
    }
}

/// Binds the parameters from the `i`-th on: for each, a declaration and an
/// assignment are pushed and the stack is driven, which takes the value
/// from what lay on top before.
pub open spec fn bind_spec<FFI: FFIOps<RT>, RT>(
    s: VMState<FFI>,
    params: Seq<Name>,
    i: nat,
    fuel: nat,
    o: Oracle<FFI>,
) -> Step<FFI>
    decreases fuel, 1nat, params.len() - i,
{
    if i >= params.len() {
        (s, Ok(()))
    } else if s.stack.len() + 2 > STACK_CAPACITY {
        (s, Err(VMError::Overflow))
    } else {
        let pushed = s.stack.push(CellView::Op(OpView::SetVar(params[i as int]))).push(
            CellView::Op(OpView::DeclVar(params[i as int])),
        );
        let (s1, r) = run_spec::<FFI, RT>(VMState { stack: pushed, ..s }, fuel, o);
        match r {
            Err(e) => (s1, Err(e)),
            Ok(_) => bind_spec::<FFI, RT>(s1, params, i + 1, fuel, o),
        }
    }
}

/// A call of the function `name`: a scope is opened, the stack length is
/// saved as the return address, the parameters are bound, then `Nruter` and
/// the body are pushed and the stack is driven. The scope is closed again
/// whatever happened after it was opened.
pub open spec fn call_spec<FFI: FFIOps<RT>, RT>(
    s: VMState<FFI>,
    name: Name,
    fuel: nat,
    o: Oracle<FFI>,
) -> Step<FFI>
    decreases fuel, 2nat, 0nat,
{
    match find_key(s.funcs, name) {
        None => (s, Err(VMError::FFI(FFIError::FunctionNotFound))),
        Some(f) => {
            let def = s.funcs[f].1;
            if s.locals.len() >= SCOPES_CAPACITY {
                (s, Err(VMError::Overflow))
            } else {
                let entered = VMState {
                    locals: s.locals.push(Seq::empty()),
                    return_addr: Some(s.stack.len() as usize),
                    ..s
                };
                let (s1, r1) = bind_spec::<FFI, RT>(entered, def.params, 0, fuel, o);
                match r1 {
                    Err(e) => (leave_scope(s1), Err(e)),
                    Ok(_) => if s1.stack.len() + 1 + def.body.len() > STACK_CAPACITY {
                        (leave_scope(s1), Err(VMError::Overflow))
                    } else {
                        let loaded = VMState {
                            stack: s1.stack.push(CellView::Op(OpView::Nruter)) + def.body,
                            ..s1
                        };
                        let (s2, r2) = run_spec::<FFI, RT>(loaded, fuel, o);
                        (leave_scope(s2), r2)
                    },
                }
            }
        },
    }
}

/// A `Then`: the conditional is split off the stack, what remains is driven
/// to resolve the condition, and the selected branch takes the condition's
/// place.
pub open spec fn then_spec<FFI: FFIOps<RT>, RT>(s: VMState<FFI>, fuel: nat, o: Oracle<FFI>) -> Step<
    FFI,
>
    decreases fuel, 2nat, 0nat,
{
    match split_conditional(s.stack) {
        None => (s, Err(VMError::Malformed)),
        Some(parts) => {
            let (s1, r) = run_spec::<FFI, RT>(VMState { stack: parts.base, ..s }, fuel, o);
            match r {
                Err(e) => (s1, Err(e)),
                Ok(_) => splice_branch(s1, parts.consequent, parts.alternative),
            }
        },
    }
}

/// What [`collect_spec`] gives: the state, and the parameters taken.
pub type Collected<FFI> = (VMState<FFI>, Result<Seq<CellView<FFI>>, VMError>);

/// Takes the parameters from the `i`-th on off the stack and appends them to
/// `acc`. A normal parameter is one cell, taken after the stack was driven;
/// a packed parameter is the length marker on top with its raw words, taken
/// as they lie.
pub open spec fn collect_spec<FFI: FFIOps<RT>, RT>(
    s: VMState<FFI>,
    info: Seq<Param>,
    i: nat,
    acc: Seq<CellView<FFI>>,
    fuel: nat,
    o: Oracle<FFI>,
) -> Collected<FFI>
    decreases fuel, 1nat, info.len() - i,
{
    if i >= info.len() {
        (s, Ok(acc))
    } else if s.stack.len() == 0 {
        (s, Err(VMError::Underflow))
    } else {
        match info[i as int] {
            Param::Normal => {
                let (s1, r) = run_spec::<FFI, RT>(s, fuel, o);
                match r {
                    Err(e) => (s1, Err(e)),
                    Ok(_) => if s1.stack.len() == 0 {
                        (s1, Err(VMError::Underflow))
                    } else {
                        collect_spec::<FFI, RT>(
                            VMState { stack: s1.stack.drop_last(), ..s1 },
                            info,
                            i + 1,
                            acc.push(s1.stack.last()),
                            fuel,
                            o,
                        )
                    },
                }
            },
            Param::DynPacked => match packed_cells(s.stack.last()) {
                None => (s, Err(VMError::Malformed)),
                Some(n) => if n > s.stack.len() {
                    (s, Err(VMError::Malformed))
                } else {
                    collect_spec::<FFI, RT>(
                        VMState { stack: s.stack.take(s.stack.len() - n), ..s },
                        info,
                        i + 1,
                        acc + s.stack.skip(s.stack.len() - n),
                        fuel,
                        o,
                    )
                },
            },
        }
    }
}

/// The state after the host answered a foreign call: the call is in the
/// history, and a cell that came back is on the return stack.
pub open spec fn answered<FFI>(
    s: VMState<FFI>,
    op: FFI,
    params: Seq<CellView<FFI>>,
    answer: Answer<FFI>,
) -> Step<FFI> {
    let noted = VMState { history: s.history.push(ForeignCall { op, params, answer }), ..s };
    match answer {
        Err(e) => (noted, Err(e)),
        Ok(cell) => push_return_checked(noted, cell),
    }
}

/// A foreign call: the parameters are taken as the operation's call info
/// says, the host is asked, and its answer goes to the return stack.
pub open spec fn ffi_spec<FFI: FFIOps<RT>, RT>(s: VMState<FFI>, op: FFI, fuel: nat, o: Oracle<FFI>) -> Step<
    FFI,
>
    decreases fuel, 2nat, 0nat,
{
    let (s1, r) = collect_spec::<FFI, RT>(s, op.call_info_spec(), 0, Seq::empty(), fuel, o);
    match r {
        Err(e) => (s1, Err(e)),
        Ok(params) => answered(s1, op, params, o(s1.history.len())),
    }
}

/// The evaluation of one operation, which was taken off the stack before.
pub open spec fn eval_spec<FFI: FFIOps<RT>, RT>(
    s: VMState<FFI>,
    op: OpView<FFI>,
    fuel: nat,
    o: Oracle<FFI>,
) -> Step<FFI>
    decreases fuel, 3nat, 0nat,
{
    match op {
        OpView::ExitFn => eval_exit(s),
        OpView::PopRet => if s.return_stack.len() == 0 {
            (s, Err(VMError::Underflow))
        } else {
            (VMState { return_stack: s.return_stack.drop_last(), ..s }, Ok(()))
        },
        OpView::Return => {
            let (s1, r) = run_spec::<FFI, RT>(s, fuel, o);
            match r {
                Err(e) => (s1, Err(e)),
                Ok(_) => move_to_return(s1),
            }
        },
        OpView::Nruter => if s.return_stack.len() == 0 {
            (s, Err(VMError::Underflow))
        } else {
            push_checked(
                VMState { return_stack: s.return_stack.drop_last(), ..s },
                s.return_stack.last(),
            )
        },
        OpView::CallDyn => match take_name(s.stack) {
            None => (s, Err(VMError::Malformed)),
            Some((name, rest)) => call_spec::<FFI, RT>(VMState { stack: rest, ..s }, name, fuel, o),
        },
        OpView::Call(name) => call_spec::<FFI, RT>(s, name, fuel, o),
        OpView::If => (s, Err(VMError::Malformed)),
        OpView::Else => (s, Err(VMError::Malformed)),
        OpView::Then => then_spec::<FFI, RT>(s, fuel, o),
        OpView::GetVar(name) => match lookup(s, name) {
            Some(Some(v)) => push_checked(s, CellView::Val(v)),
            _ => (s, Err(VMError::VarNotFound)),
        },
        OpView::SetVar(name) => {
            let (s1, r) = resolve_spec::<FFI, RT>(s, fuel, o);
            match r {
                Err(e) => (s1, Err(e)),
                Ok(v) => assign(s1, name, v),
            }
        },
        OpView::DeclVar(name) => declare(s, name),
        OpView::FFI(f) => ffi_spec::<FFI, RT>(s, f, fuel, o),
        _ => binary_spec::<FFI, RT>(s, op, fuel, o),
    }
}

} // verus!
