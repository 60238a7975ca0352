//! Laws of the machine, proved of its semantics.

use crate::forth::cell::{CellView, FFIError, FFIOps, Name, OpView, Param, VMError};
use crate::forth::cell_data::{CellData, ONE_BITS};
use crate::forth::semantics::{
    agrees, answered, apply_binary, assign, binary_spec, bind_spec, call_spec, collect_spec,
    declare, eval_spec, extends, find_else, find_if, is_binary, leave_scope, resolve_spec, run_spec,
    selected_branch, split_conditional, take_name, take_text, then_spec, top_is_op, within_capacity, ForeignCall,
    Oracle, VMState,
};
use crate::forth::store::{find_key, STACK_CAPACITY};
use crate::forth::util::{
    lemma_pack_unpack, len_marker, marker_len, pack_spec, packed_cells, words_needed,
    MAX_PACKED_LEN,
};
use vstd::prelude::*;

verus! {

/// The oracle that repeats the answers of a history, and answers `Null`
/// after.
pub open spec fn oracle_of<FFI>(history: Seq<ForeignCall<FFI>>) -> Oracle<FFI> {
    |n: nat|
        if n < history.len() {
            history[n as int].answer
        } else {
            Ok::<CellView<FFI>, VMError>(CellView::Null)
        }
}

/// A call of a function that does not exist fails and changes nothing,
/// whatever the host would answer.
pub proof fn lemma_call_unknown<FFI: FFIOps<RT>, RT>(
    s: VMState<FFI>,
    name: Name,
    fuel: nat,
    history: Seq<ForeignCall<FFI>>,
)
    requires
        find_key(s.funcs, name) is None,
    ensures
        agrees(oracle_of(history), history),
        call_spec::<FFI, RT>(s, name, fuel, oracle_of(history)) == (
            s,
            Err::<(), VMError>(VMError::FFI(FFIError::FunctionNotFound)),
        ),
{
}

/// A state whose top is no operation is left as it is by the driver.
pub proof fn lemma_run_idle<FFI: FFIOps<RT>, RT>(s: VMState<FFI>, fuel: nat, o: Oracle<FFI>)
    requires
        !top_is_op(s.stack),
    ensures
        run_spec::<FFI, RT>(s, fuel, o) == (s, Ok::<(), VMError>(())),
{
}

/// Arithmetic: with two numbers `a` and `b` on the stack and a binary
/// operation on top of them, the driver leaves in their place the one number
/// that the operation gives for them, which for sums, differences, products,
/// quotients and remainders is the result of the fixed-point arithmetic;
/// division and remainder by zero fail with `DivByZero` and leave the stack
/// without the operands.
pub proof fn lemma_arithmetic<FFI: FFIOps<RT>, RT>(
    s: VMState<FFI>,
    a: CellData,
    b: CellData,
    op: OpView<FFI>,
    fuel: nat,
    o: Oracle<FFI>,
)
    requires
        is_binary(op),
        !top_is_op(s.stack),
        fuel >= 1,
    ensures
        run_spec::<FFI, RT>(
            VMState {
                stack: s.stack.push(CellView::Val(a)).push(CellView::Val(b)).push(CellView::Op(op)),
                ..s
            },
            fuel,
            o,
        ) == (match apply_binary(op, a, b) {
            Ok(v) => (VMState { stack: s.stack.push(CellView::Val(v)), ..s }, Ok::<(), VMError>(())),
            Err(e) => (s, Err::<(), VMError>(e)),
        }),
{
    let f = (fuel - 1) as nat;
    let s_ab = VMState { stack: s.stack.push(CellView::Val(a)).push(CellView::Val(b)), ..s };
    let s_a = VMState { stack: s.stack.push(CellView::Val(a)), ..s };
    let start = VMState { stack: s_ab.stack.push(CellView::Op(op)), ..s };
    assert(start.stack.drop_last() =~= s_ab.stack);
    assert(s_ab.stack.drop_last() =~= s_a.stack);
    assert(s_a.stack.drop_last() =~= s.stack);
    assert(VMState { stack: start.stack.drop_last(), ..start } == s_ab);
    lemma_run_idle::<FFI, RT>(s_ab, f, o);
    assert(resolve_spec::<FFI, RT>(s_ab, f, o) == (s_a, Ok::<CellData, VMError>(b)));
    lemma_run_idle::<FFI, RT>(s_a, f, o);
    assert(resolve_spec::<FFI, RT>(s_a, f, o) == (s, Ok::<CellData, VMError>(a)));
    assert(binary_spec::<FFI, RT>(s_ab, op, f, o) == (match apply_binary(op, a, b) {
        Ok(v) => (VMState { stack: s.stack.push(CellView::Val(v)), ..s }, Ok::<(), VMError>(())),
        Err(e) => (s, Err::<(), VMError>(e)),
    }));
    assert(eval_spec::<FFI, RT>(s_ab, op, f, o) == binary_spec::<FFI, RT>(s_ab, op, f, o));
    match apply_binary(op, a, b) {
        Ok(v) => {
            lemma_run_idle::<FFI, RT>(VMState { stack: s.stack.push(CellView::Val(v)), ..s }, f, o);
        },
        Err(e) => {},
    }
}

/// The topmost `If` of a stack that ends in `[If] + above`, where `above`
/// holds no `If`, is that one.
pub proof fn lemma_find_if<FFI>(base: Seq<CellView<FFI>>, above: Seq<CellView<FFI>>)
    requires
        forall|i: int| 0 <= i < above.len() ==> above[i] != CellView::<FFI>::Op(OpView::If),
    ensures
        find_if(base.push(CellView::Op(OpView::If)) + above) == Some(base.len() as int),
    decreases above.len(),
{
    let whole = base.push(CellView::Op(OpView::If)) + above;
    if above.len() == 0 {
        assert(whole =~= base.push(CellView::Op(OpView::If)));
    } else {
        assert(whole.last() == above.last());
        assert(whole.drop_last() =~= base.push(CellView::Op(OpView::If)) + above.drop_last());
        lemma_find_if(base, above.drop_last());
    }
}

/// The lowest `Else` at or above `from` is at `at` when no `Else` lies
/// between the two.
pub proof fn lemma_find_else<FFI>(stack: Seq<CellView<FFI>>, from: int, at: int)
    requires
        0 <= from <= at < stack.len(),
        stack[at] == CellView::<FFI>::Op(OpView::Else),
        forall|i: int| from <= i < at ==> stack[i] != CellView::<FFI>::Op(OpView::Else),
    ensures
        find_else(stack, from) == Some(at),
    decreases at - from,
{
    if from < at {
        lemma_find_else(stack, from + 1, at);
    }
}

/// Without an `Else` at or above `from`, none is found.
pub proof fn lemma_find_no_else<FFI>(stack: Seq<CellView<FFI>>, from: int)
    requires
        0 <= from,
        forall|i: int| from <= i < stack.len() ==> stack[i] != CellView::<FFI>::Op(OpView::Else),
    ensures
        find_else(stack, from) is None,
    decreases stack.len() - from,
{
    if from < stack.len() {
        lemma_find_no_else(stack, from + 1);
    }
}

/// Whether `cells` can be the branch of a conditional: no `If` and no `Else`
/// lies in it.
pub open spec fn plain_branch<FFI>(cells: Seq<CellView<FFI>>) -> bool {
    forall|i: int|
        0 <= i < cells.len() ==> (#[trigger] cells[i]) != CellView::<FFI>::Op(OpView::If)
            && cells[i] != CellView::<FFI>::Op(OpView::Else)
}

/// The stack of a conditional with both branches, its `Then` taken off.
pub open spec fn conditional_stack<FFI>(
    base: Seq<CellView<FFI>>,
    consequent: Seq<CellView<FFI>>,
    alternative: Seq<CellView<FFI>>,
) -> Seq<CellView<FFI>> {
    base.push(CellView::Op(OpView::If)) + consequent + seq![CellView::Op(OpView::Else)]
        + alternative
}

/// Conditional: when the condition `c` lies resolved on top of the base, a
/// `Then` leaves the base without the condition, and on it the consequent if
/// `c` is 1, the alternative if not. Nothing of the other branch stays, and
/// neither marker.
pub proof fn lemma_conditional<FFI: FFIOps<RT>, RT>(
    s: VMState<FFI>,
    c: CellData,
    consequent: Seq<CellView<FFI>>,
    alternative: Seq<CellView<FFI>>,
    fuel: nat,
    o: Oracle<FFI>,
)
    requires
        plain_branch(consequent),
        plain_branch(alternative),
        consequent.len() > 0,
        s.stack.len() + consequent.len() <= STACK_CAPACITY,
        s.stack.len() + alternative.len() <= STACK_CAPACITY,
    ensures
        then_spec::<FFI, RT>(
            VMState {
                stack: conditional_stack(s.stack.push(CellView::Val(c)), consequent, alternative),
                ..s
            },
            fuel,
            o,
        ) == (
            VMState {
                stack: s.stack + (if c.bits == ONE_BITS {
                    consequent
                } else {
                    alternative
                }),
                ..s
            },
            Ok::<(), VMError>(()),
        ),
{
    let base = s.stack.push(CellView::Val(c));
    let stack = conditional_stack(base, consequent, alternative);
    let above = consequent + seq![CellView::<FFI>::Op(OpView::Else)] + alternative;
    let if_idx = base.len() as int;
    let else_idx = if_idx + 1 + consequent.len();
    assert(stack =~= base.push(CellView::Op(OpView::If)) + above);
    assert forall|i: int| 0 <= i < above.len() implies above[i] != CellView::<FFI>::Op(
        OpView::If,
    ) by {
        if i < consequent.len() {
            assert(above[i] == consequent[i]);
        } else if i > consequent.len() {
            assert(above[i] == alternative[i - consequent.len() - 1]);
        }
    }
    lemma_find_if(base, above);
    assert forall|i: int| if_idx + 1 <= i < else_idx implies stack[i] != CellView::<FFI>::Op(
        OpView::Else,
    ) by {
        assert(stack[i] == consequent[i - if_idx - 1]);
    }
    lemma_find_else(stack, if_idx + 1, else_idx);
    let parts = split_conditional(stack)->Some_0;
    assert(parts.base =~= base);
    assert(parts.consequent =~= consequent);
    assert(parts.alternative =~= alternative);
    let resolved = VMState { stack: base, ..s };
    lemma_run_idle::<FFI, RT>(resolved, fuel, o);
    assert(base.drop_last() =~= s.stack);
}

/// Conditional without an `Else`: the consequent stays if `c` is 1, and
/// nothing if not.
pub proof fn lemma_conditional_without_else<FFI: FFIOps<RT>, RT>(
    s: VMState<FFI>,
    c: CellData,
    consequent: Seq<CellView<FFI>>,
    fuel: nat,
    o: Oracle<FFI>,
)
    requires
        plain_branch(consequent),
        consequent.len() > 0,
        s.stack.len() + consequent.len() <= STACK_CAPACITY,
    ensures
        then_spec::<FFI, RT>(
            VMState {
                stack: s.stack.push(CellView::Val(c)).push(CellView::Op(OpView::If)) + consequent,
                ..s
            },
            fuel,
            o,
        ) == (
            VMState {
                stack: if c.bits == ONE_BITS {
                    s.stack + consequent
                } else {
                    s.stack
                },
                ..s
            },
            Ok::<(), VMError>(()),
        ),
{
    let base = s.stack.push(CellView::Val(c));
    let stack = base.push(CellView::Op(OpView::If)) + consequent;
    let if_idx = base.len() as int;
    lemma_find_if(base, consequent);
    assert forall|i: int| if_idx + 1 <= i < stack.len() implies stack[i] != CellView::<FFI>::Op(
        OpView::Else,
    ) by {
        assert(stack[i] == consequent[i - if_idx - 1]);
    }
    lemma_find_no_else(stack, if_idx + 1);
    let parts = split_conditional(stack)->Some_0;
    assert(parts.base =~= base);
    assert(parts.consequent =~= consequent);
    assert(parts.alternative =~= Seq::<CellView<FFI>>::empty());
    let resolved = VMState { stack: base, ..s };
    lemma_run_idle::<FFI, RT>(resolved, fuel, o);
    assert(base.drop_last() =~= s.stack);
    assert(s.stack + Seq::<CellView<FFI>>::empty() =~= s.stack);
}

/// The state in which a conditional leaves the machine: the condition `c`
/// is taken off the top of the stack of `resolved`, and the branch that it
/// selects lies in its place.
pub open spec fn branch_taken<FFI>(
    resolved: VMState<FFI>,
    c: CellData,
    consequent: Seq<CellView<FFI>>,
    alternative: Seq<CellView<FFI>>,
) -> VMState<FFI> {
    VMState {
        stack: resolved.stack.drop_last() + selected_branch(consequent, alternative, c),
        ..resolved
    }
}

/// Whether driving the machine from `s` computes the condition `c`: the
/// driver ends in success with the number `c` on top of the stack, and with
/// room for the branch that `c` selects.
pub open spec fn condition_computed<FFI: FFIOps<RT>, RT>(
    s: VMState<FFI>,
    c: CellData,
    consequent: Seq<CellView<FFI>>,
    alternative: Seq<CellView<FFI>>,
    fuel: nat,
    o: Oracle<FFI>,
) -> bool {
    let (resolved, r) = run_spec::<FFI, RT>(s, fuel, o);
    &&& r is Ok
    &&& resolved.stack.len() > 0
    &&& resolved.stack.last() == CellView::<FFI>::Val(c)
    &&& resolved.stack.len() - 1 + selected_branch(consequent, alternative, c).len()
        <= STACK_CAPACITY
}

/// Conditional, with a condition that is still to be computed: when the
/// cells below the `If` drive to the number `c`, whatever they call on the
/// way, a `Then` leaves the machine as that computation left it, with the
/// consequent in place of `c` if `c` is 1 and the alternative if not. The
/// driver then goes on as on a machine that never held the other branch or
/// a marker: what the selected branch does happens, and nothing else.
pub proof fn lemma_conditional_computed<FFI: FFIOps<RT>, RT>(
    s: VMState<FFI>,
    c: CellData,
    consequent: Seq<CellView<FFI>>,
    alternative: Seq<CellView<FFI>>,
    fuel: nat,
    o: Oracle<FFI>,
)
    requires
        plain_branch(consequent),
        plain_branch(alternative),
        consequent.len() > 0,
        condition_computed::<FFI, RT>(s, c, consequent, alternative, fuel, o),
    ensures
        then_spec::<FFI, RT>(
            VMState { stack: conditional_stack(s.stack, consequent, alternative), ..s },
            fuel,
            o,
        ) == (
            branch_taken(run_spec::<FFI, RT>(s, fuel, o).0, c, consequent, alternative),
            Ok::<(), VMError>(()),
        ),
        run_spec::<FFI, RT>(
            VMState {
                stack: conditional_stack(s.stack, consequent, alternative).push(
                    CellView::Op(OpView::Then),
                ),
                ..s
            },
            fuel + 1,
            o,
        ) == run_spec::<FFI, RT>(
            branch_taken(run_spec::<FFI, RT>(s, fuel, o).0, c, consequent, alternative),
            fuel,
            o,
        ),
{
    let base = s.stack;
    let stack = conditional_stack(base, consequent, alternative);
    let above = consequent + seq![CellView::<FFI>::Op(OpView::Else)] + alternative;
    let if_idx = base.len() as int;
    let else_idx = if_idx + 1 + consequent.len();
    assert(base.len() > 0);
    assert(stack =~= base.push(CellView::Op(OpView::If)) + above);
    assert forall|i: int| 0 <= i < above.len() implies above[i] != CellView::<FFI>::Op(
        OpView::If,
    ) by {
        if i < consequent.len() {
            assert(above[i] == consequent[i]);
        } else if i > consequent.len() {
            assert(above[i] == alternative[i - consequent.len() - 1]);
        }
    }
    lemma_find_if(base, above);
    assert forall|i: int| if_idx + 1 <= i < else_idx implies stack[i] != CellView::<FFI>::Op(
        OpView::Else,
    ) by {
        assert(stack[i] == consequent[i - if_idx - 1]);
    }
    lemma_find_else(stack, if_idx + 1, else_idx);
    let parts = split_conditional(stack)->Some_0;
    assert(parts.base =~= base);
    assert(parts.consequent =~= consequent);
    assert(parts.alternative =~= alternative);
    assert(VMState { stack: parts.base, ..s } == s);
    let whole = VMState { stack: stack.push(CellView::Op(OpView::Then)), ..s };
    let popped = VMState { stack: stack, ..s };
    assert(whole.stack.drop_last() =~= stack);
    assert(top_is_op(whole.stack));
    assert(whole.stack.last()->Op_0 == OpView::<FFI>::Then);
    assert(VMState { stack: whole.stack.drop_last(), ..whole } == popped);
    assert((fuel + 1 - 1) as nat == fuel);
    assert(eval_spec::<FFI, RT>(popped, OpView::Then, fuel, o) == then_spec::<FFI, RT>(
        popped,
        fuel,
        o,
    ));
}

/// Conditional without an `Else`, with a condition that is still to be
/// computed: the consequent takes the place of `c` if `c` is 1, and nothing
/// does if not.
pub proof fn lemma_conditional_without_else_computed<FFI: FFIOps<RT>, RT>(
    s: VMState<FFI>,
    c: CellData,
    consequent: Seq<CellView<FFI>>,
    fuel: nat,
    o: Oracle<FFI>,
)
    requires
        plain_branch(consequent),
        consequent.len() > 0,
        condition_computed::<FFI, RT>(s, c, consequent, Seq::empty(), fuel, o),
    ensures
        then_spec::<FFI, RT>(
            VMState { stack: s.stack.push(CellView::Op(OpView::If)) + consequent, ..s },
            fuel,
            o,
        ) == (
            branch_taken(run_spec::<FFI, RT>(s, fuel, o).0, c, consequent, Seq::empty()),
            Ok::<(), VMError>(()),
        ),
        run_spec::<FFI, RT>(
            VMState {
                stack: (s.stack.push(CellView::Op(OpView::If)) + consequent).push(
                    CellView::Op(OpView::Then),
                ),
                ..s
            },
            fuel + 1,
            o,
        ) == run_spec::<FFI, RT>(
            branch_taken(run_spec::<FFI, RT>(s, fuel, o).0, c, consequent, Seq::empty()),
            fuel,
            o,
        ),
{
    let base = s.stack;
    let stack = base.push(CellView::Op(OpView::If)) + consequent;
    let if_idx = base.len() as int;
    assert(base.len() > 0);
    lemma_find_if(base, consequent);
    assert forall|i: int| if_idx + 1 <= i < stack.len() implies stack[i] != CellView::<FFI>::Op(
        OpView::Else,
    ) by {
        assert(stack[i] == consequent[i - if_idx - 1]);
    }
    lemma_find_no_else(stack, if_idx + 1);
    let parts = split_conditional(stack)->Some_0;
    assert(parts.base =~= base);
    assert(parts.consequent =~= consequent);
    assert(parts.alternative =~= Seq::<CellView<FFI>>::empty());
    assert(VMState { stack: parts.base, ..s } == s);
    let whole = VMState { stack: stack.push(CellView::Op(OpView::Then)), ..s };
    let popped = VMState { stack: stack, ..s };
    assert(whole.stack.drop_last() =~= stack);
    assert(top_is_op(whole.stack));
    assert(whole.stack.last()->Op_0 == OpView::<FFI>::Then);
    assert(VMState { stack: whole.stack.drop_last(), ..whole } == popped);
    assert((fuel + 1 - 1) as nat == fuel);
    assert(eval_spec::<FFI, RT>(popped, OpView::Then, fuel, o) == then_spec::<FFI, RT>(
        popped,
        fuel,
        o,
    ));
}

/// What the machine keeps through whatever it does: both stacks and the
/// stack of scopes stay within their capacities, as many scopes are open as
/// before, the function table is the same, and the history is continued.
pub open spec fn kept_spec<FFI>(before: VMState<FFI>, after: VMState<FFI>) -> bool {
    &&& within_capacity(after)
    &&& after.locals.len() == before.locals.len()
    &&& after.funcs == before.funcs
    &&& extends(before.history, after.history)
}

/// Keeping goes through: what is kept from `a` to `b` and from `b` to `c`
/// is kept from `a` to `c`.
pub proof fn lemma_kept_trans<FFI>(a: VMState<FFI>, b: VMState<FFI>, c: VMState<FFI>)
    requires
        kept_spec(a, b),
        kept_spec(b, c),
    ensures
        kept_spec(a, c),
{
    assert forall|i: int| 0 <= i < a.history.len() implies #[trigger] a.history[i]
        == c.history[i] by {
        assert(a.history[i] == b.history[i]);
    }
}

/// The capacities at every step, and the depth of the scopes after a call:
/// whatever the program and whatever the host answers, the driver keeps the
/// machine within its capacities, leaves as many scopes open as it found,
/// and does not touch the function table; and when it ends in success, no
/// operation lies on top of the data stack.
pub proof fn lemma_run_keeps<FFI: FFIOps<RT>, RT>(s: VMState<FFI>, fuel: nat, o: Oracle<FFI>)
    requires
        within_capacity(s),
    ensures
        kept_spec(s, run_spec::<FFI, RT>(s, fuel, o).0),
        run_spec::<FFI, RT>(s, fuel, o).1 is Ok ==> !top_is_op(
            run_spec::<FFI, RT>(s, fuel, o).0.stack,
        ),
    decreases fuel, 0nat, 0nat,
{
    if top_is_op(s.stack) && fuel > 0 {
        let popped = VMState { stack: s.stack.drop_last(), ..s };
        let f = (fuel - 1) as nat;
        lemma_eval_keeps::<FFI, RT>(popped, s.stack.last()->Op_0, f, o);
        let (s1, r) = eval_spec::<FFI, RT>(popped, s.stack.last()->Op_0, f, o);
        if r is Ok {
            lemma_run_keeps::<FFI, RT>(s1, f, o);
            lemma_kept_trans(s, s1, run_spec::<FFI, RT>(s1, f, o).0);
        }
    }
}

/// Resolving an operand keeps what the driver keeps, and leaves room for
/// one cell when it succeeds.
pub proof fn lemma_resolve_keeps<FFI: FFIOps<RT>, RT>(s: VMState<FFI>, fuel: nat, o: Oracle<FFI>)
    requires
        within_capacity(s),
    ensures
        kept_spec(s, resolve_spec::<FFI, RT>(s, fuel, o).0),
        resolve_spec::<FFI, RT>(s, fuel, o).1 is Ok ==> resolve_spec::<FFI, RT>(
            s,
            fuel,
            o,
        ).0.stack.len() < STACK_CAPACITY,
    decreases fuel, 1nat, 0nat,
{
    lemma_run_keeps::<FFI, RT>(s, fuel, o);
}

/// A call keeps what the driver keeps: in particular, as many scopes are
/// open after it as before, also when it fails.
pub proof fn lemma_call_keeps<FFI: FFIOps<RT>, RT>(
    s: VMState<FFI>,
    name: Name,
    fuel: nat,
    o: Oracle<FFI>,
)
    requires
        within_capacity(s),
    ensures
        kept_spec(s, call_spec::<FFI, RT>(s, name, fuel, o).0),
    decreases fuel, 2nat, 0nat,
{
    match find_key(s.funcs, name) {
        None => {},
        Some(f) => {
            let def = s.funcs[f].1;
            if s.locals.len() < crate::forth::semantics::SCOPES_CAPACITY {
                let entered = VMState {
                    locals: s.locals.push(Seq::empty()),
                    return_addr: Some(s.stack.len() as usize),
                    ..s
                };
                lemma_bind_keeps::<FFI, RT>(entered, def.params, 0, fuel, o);
                let (s1, r1) = bind_spec::<FFI, RT>(entered, def.params, 0, fuel, o);
                if r1 is Ok && s1.stack.len() + 1 + def.body.len() <= STACK_CAPACITY {
                    let loaded = VMState {
                        stack: s1.stack.push(CellView::Op(OpView::Nruter)) + def.body,
                        ..s1
                    };
                    lemma_run_keeps::<FFI, RT>(loaded, fuel, o);
                    let s2 = run_spec::<FFI, RT>(loaded, fuel, o).0;
                    lemma_kept_trans(entered, loaded, s2);
                    assert forall|i: int| 0 <= i < s.history.len() implies #[trigger] s.history[i]
                        == leave_scope(s2).history[i] by {
                        assert(entered.history[i] == s2.history[i]);
                    }
                } else {
                    assert forall|i: int| 0 <= i < s.history.len() implies #[trigger] s.history[i]
                        == leave_scope(s1).history[i] by {
                        assert(entered.history[i] == s1.history[i]);
                    }
                }
            }
        },
    }
}

/// Binding parameters keeps what the driver keeps.
pub proof fn lemma_bind_keeps<FFI: FFIOps<RT>, RT>(
    s: VMState<FFI>,
    params: Seq<Name>,
    i: nat,
    fuel: nat,
    o: Oracle<FFI>,
)
    requires
        within_capacity(s),
    ensures
        kept_spec(s, bind_spec::<FFI, RT>(s, params, i, fuel, o).0),
    decreases fuel, 1nat, params.len() - i,
{
    if i < params.len() && s.stack.len() + 2 <= STACK_CAPACITY {
        let pushed = s.stack.push(CellView::Op(OpView::SetVar(params[i as int]))).push(
            CellView::Op(OpView::DeclVar(params[i as int])),
        );
        let s0 = VMState { stack: pushed, ..s };
        lemma_run_keeps::<FFI, RT>(s0, fuel, o);
        let (s1, r) = run_spec::<FFI, RT>(s0, fuel, o);
        if r is Ok {
            lemma_bind_keeps::<FFI, RT>(s1, params, i + 1, fuel, o);
            lemma_kept_trans(s0, s1, bind_spec::<FFI, RT>(s1, params, i + 1, fuel, o).0);
        }
    }
}

/// Taking the parameters of a foreign call keeps what the driver keeps.
pub proof fn lemma_collect_keeps<FFI: FFIOps<RT>, RT>(
    s: VMState<FFI>,
    info: Seq<Param>,
    i: nat,
    acc: Seq<CellView<FFI>>,
    fuel: nat,
    o: Oracle<FFI>,
)
    requires
        within_capacity(s),
    ensures
        kept_spec(s, collect_spec::<FFI, RT>(s, info, i, acc, fuel, o).0),
    decreases fuel, 1nat, info.len() - i,
{
    if i < info.len() && s.stack.len() > 0 {
        match info[i as int] {
            Param::Normal => {
                lemma_run_keeps::<FFI, RT>(s, fuel, o);
                let (s1, r) = run_spec::<FFI, RT>(s, fuel, o);
                if r is Ok && s1.stack.len() > 0 {
                    let s2 = VMState { stack: s1.stack.drop_last(), ..s1 };
                    lemma_collect_keeps::<FFI, RT>(
                        s2,
                        info,
                        i + 1,
                        acc.push(s1.stack.last()),
                        fuel,
                        o,
                    );
                    lemma_kept_trans(
                        s,
                        s2,
                        collect_spec::<FFI, RT>(s2, info, i + 1, acc.push(s1.stack.last()), fuel, o).0,
                    );
                }
            },
            Param::DynPacked => match packed_cells(s.stack.last()) {
                None => {},
                Some(n) => if n <= s.stack.len() {
                    let s2 = VMState { stack: s.stack.take(s.stack.len() - n), ..s };
                    let acc2 = acc + s.stack.skip(s.stack.len() - n);
                    lemma_collect_keeps::<FFI, RT>(s2, info, i + 1, acc2, fuel, o);
                    lemma_kept_trans(
                        s,
                        s2,
                        collect_spec::<FFI, RT>(s2, info, i + 1, acc2, fuel, o).0,
                    );
                },
            },
        }
    }
}

/// The evaluation of one operation keeps what the driver keeps.
pub proof fn lemma_eval_keeps<FFI: FFIOps<RT>, RT>(
    s: VMState<FFI>,
    op: OpView<FFI>,
    fuel: nat,
    o: Oracle<FFI>,
)
    requires
        within_capacity(s),
    ensures
        kept_spec(s, eval_spec::<FFI, RT>(s, op, fuel, o).0),
    decreases fuel, 3nat, 0nat,
{
    match op {
        OpView::ExitFn => {},
        OpView::PopRet => {},
        OpView::Return => {
            lemma_run_keeps::<FFI, RT>(s, fuel, o);
        },
        OpView::Nruter => {},
        OpView::CallDyn => match take_name(s.stack) {
            None => {},
            Some((name, rest)) => {
                let s1 = VMState { stack: rest, ..s };
                lemma_call_keeps::<FFI, RT>(s1, name, fuel, o);
            },
        },
        OpView::Call(name) => {
            lemma_call_keeps::<FFI, RT>(s, name, fuel, o);
        },
        OpView::If => {},
        OpView::Else => {},
        OpView::Then => match split_conditional(s.stack) {
            None => {},
            Some(parts) => {
                let s0 = VMState { stack: parts.base, ..s };
                lemma_find_if_bound(s.stack);
                lemma_run_keeps::<FFI, RT>(s0, fuel, o);
            },
        },
        OpView::GetVar(name) => {},
        OpView::SetVar(name) => {
            lemma_resolve_keeps::<FFI, RT>(s, fuel, o);
            let (s1, r) = resolve_spec::<FFI, RT>(s, fuel, o);
            match r {
                Ok(v) => {
                    lemma_assign_keeps(s1, name, v);
                    lemma_kept_trans(s, s1, assign(s1, name, v).0);
                },
                Err(_) => {},
            }
        },
        OpView::DeclVar(name) => {
            lemma_declare_keeps(s, name);
        },
        OpView::FFI(f) => {
            lemma_collect_keeps::<FFI, RT>(s, f.call_info_spec(), 0, Seq::empty(), fuel, o);
            let (s1, r) = collect_spec::<FFI, RT>(s, f.call_info_spec(), 0, Seq::empty(), fuel, o);
            match r {
                Ok(params) => {
                    let s2 = answered(s1, f, params, o(s1.history.len())).0;
                    assert(kept_spec(s1, s2));
                    lemma_kept_trans(s, s1, s2);
                },
                Err(_) => {},
            }
        },
        _ => {
            lemma_resolve_keeps::<FFI, RT>(s, fuel, o);
            let (s1, ry) = resolve_spec::<FFI, RT>(s, fuel, o);
            if ry is Ok {
                lemma_resolve_keeps::<FFI, RT>(s1, fuel, o);
                let (s2, rx) = resolve_spec::<FFI, RT>(s1, fuel, o);
                lemma_kept_trans(s, s1, s2);
                if rx is Ok {
                    lemma_kept_trans(s, s2, binary_spec::<FFI, RT>(s, op, fuel, o).0);
                }
            }
        },
    }
}

/// Whether the host never answers `Vanished`.
pub open spec fn host_present<FFI>(o: Oracle<FFI>) -> bool {
    forall|n: nat| #[trigger] o(n) != Err::<CellView<FFI>, VMError>(VMError::Vanished)
}

/// Whether a result is anything but the error `Vanished`.
pub open spec fn present<T>(r: Result<T, VMError>) -> bool {
    r matches Err(e) ==> e != VMError::Vanished
}

/// The driver does not give `Vanished` by itself: where the host never
/// answers so, no run ends so.
pub proof fn lemma_run_present<FFI: FFIOps<RT>, RT>(s: VMState<FFI>, fuel: nat, o: Oracle<FFI>)
    requires
        host_present(o),
    ensures
        present(run_spec::<FFI, RT>(s, fuel, o).1),
    decreases fuel, 0nat, 0nat,
{
    if top_is_op(s.stack) && fuel > 0 {
        let popped = VMState { stack: s.stack.drop_last(), ..s };
        let f = (fuel - 1) as nat;
        lemma_eval_present::<FFI, RT>(popped, s.stack.last()->Op_0, f, o);
        let (s1, r) = eval_spec::<FFI, RT>(popped, s.stack.last()->Op_0, f, o);
        if r is Ok {
            lemma_run_present::<FFI, RT>(s1, f, o);
        }
    }
}

/// Resolving an operand does not give `Vanished` by itself.
pub proof fn lemma_resolve_present<FFI: FFIOps<RT>, RT>(s: VMState<FFI>, fuel: nat, o: Oracle<FFI>)
    requires
        host_present(o),
    ensures
        present(resolve_spec::<FFI, RT>(s, fuel, o).1),
    decreases fuel, 1nat, 0nat,
{
    lemma_run_present::<FFI, RT>(s, fuel, o);
}

/// A call does not give `Vanished` by itself.
pub proof fn lemma_call_present<FFI: FFIOps<RT>, RT>(
    s: VMState<FFI>,
    name: Name,
    fuel: nat,
    o: Oracle<FFI>,
)
    requires
        host_present(o),
    ensures
        present(call_spec::<FFI, RT>(s, name, fuel, o).1),
    decreases fuel, 2nat, 0nat,
{
    match find_key(s.funcs, name) {
        None => {},
        Some(f) => {
            let def = s.funcs[f].1;
            if s.locals.len() < crate::forth::semantics::SCOPES_CAPACITY {
                let entered = VMState {
                    locals: s.locals.push(Seq::empty()),
                    return_addr: Some(s.stack.len() as usize),
                    ..s
                };
                lemma_bind_present::<FFI, RT>(entered, def.params, 0, fuel, o);
                let (s1, r1) = bind_spec::<FFI, RT>(entered, def.params, 0, fuel, o);
                if r1 is Ok && s1.stack.len() + 1 + def.body.len() <= STACK_CAPACITY {
                    let loaded = VMState {
                        stack: s1.stack.push(CellView::Op(OpView::Nruter)) + def.body,
                        ..s1
                    };
                    lemma_run_present::<FFI, RT>(loaded, fuel, o);
                }
            }
        },
    }
}

/// Binding parameters does not give `Vanished` by itself.
pub proof fn lemma_bind_present<FFI: FFIOps<RT>, RT>(
    s: VMState<FFI>,
    params: Seq<Name>,
    i: nat,
    fuel: nat,
    o: Oracle<FFI>,
)
    requires
        host_present(o),
    ensures
        present(bind_spec::<FFI, RT>(s, params, i, fuel, o).1),
    decreases fuel, 1nat, params.len() - i,
{
    if i < params.len() && s.stack.len() + 2 <= STACK_CAPACITY {
        let pushed = s.stack.push(CellView::Op(OpView::SetVar(params[i as int]))).push(
            CellView::Op(OpView::DeclVar(params[i as int])),
        );
        let s0 = VMState { stack: pushed, ..s };
        lemma_run_present::<FFI, RT>(s0, fuel, o);
        let (s1, r) = run_spec::<FFI, RT>(s0, fuel, o);
        if r is Ok {
            lemma_bind_present::<FFI, RT>(s1, params, i + 1, fuel, o);
        }
    }
}

/// Taking the parameters of a foreign call does not give `Vanished` by
/// itself.
pub proof fn lemma_collect_present<FFI: FFIOps<RT>, RT>(
    s: VMState<FFI>,
    info: Seq<Param>,
    i: nat,
    acc: Seq<CellView<FFI>>,
    fuel: nat,
    o: Oracle<FFI>,
)
    requires
        host_present(o),
    ensures
        present(collect_spec::<FFI, RT>(s, info, i, acc, fuel, o).1),
    decreases fuel, 1nat, info.len() - i,
{
    if i < info.len() && s.stack.len() > 0 {
        match info[i as int] {
            Param::Normal => {
                lemma_run_present::<FFI, RT>(s, fuel, o);
                let (s1, r) = run_spec::<FFI, RT>(s, fuel, o);
                if r is Ok && s1.stack.len() > 0 {
                    let s2 = VMState { stack: s1.stack.drop_last(), ..s1 };
                    lemma_collect_present::<FFI, RT>(
                        s2,
                        info,
                        i + 1,
                        acc.push(s1.stack.last()),
                        fuel,
                        o,
                    );
                }
            },
            Param::DynPacked => match packed_cells(s.stack.last()) {
                None => {},
                Some(n) => if n <= s.stack.len() {
                    let s2 = VMState { stack: s.stack.take(s.stack.len() - n), ..s };
                    let acc2 = acc + s.stack.skip(s.stack.len() - n);
                    lemma_collect_present::<FFI, RT>(s2, info, i + 1, acc2, fuel, o);
                },
            },
        }
    }
}

/// The evaluation of one operation does not give `Vanished` by itself.
pub proof fn lemma_eval_present<FFI: FFIOps<RT>, RT>(
    s: VMState<FFI>,
    op: OpView<FFI>,
    fuel: nat,
    o: Oracle<FFI>,
)
    requires
        host_present(o),
    ensures
        present(eval_spec::<FFI, RT>(s, op, fuel, o).1),
    decreases fuel, 3nat, 0nat,
{
    match op {
        OpView::ExitFn => {},
        OpView::PopRet => {},
        OpView::Return => {
            lemma_run_present::<FFI, RT>(s, fuel, o);
        },
        OpView::Nruter => {},
        OpView::CallDyn => match take_name(s.stack) {
            None => {},
            Some((name, rest)) => {
                let s1 = VMState { stack: rest, ..s };
                lemma_call_present::<FFI, RT>(s1, name, fuel, o);
            },
        },
        OpView::Call(name) => {
            lemma_call_present::<FFI, RT>(s, name, fuel, o);
        },
        OpView::If => {},
        OpView::Else => {},
        OpView::Then => match split_conditional(s.stack) {
            None => {},
            Some(parts) => {
                let s0 = VMState { stack: parts.base, ..s };
                lemma_run_present::<FFI, RT>(s0, fuel, o);
            },
        },
        OpView::GetVar(name) => {},
        OpView::SetVar(name) => {
            lemma_resolve_present::<FFI, RT>(s, fuel, o);
        },
        OpView::DeclVar(name) => {},
        OpView::FFI(f) => {
            lemma_collect_present::<FFI, RT>(s, f.call_info_spec(), 0, Seq::empty(), fuel, o);
            let (s1, r) = collect_spec::<FFI, RT>(s, f.call_info_spec(), 0, Seq::empty(), fuel, o);
            assert(present(o(s1.history.len())));
        },
        _ => {
            lemma_resolve_present::<FFI, RT>(s, fuel, o);
            let (s1, ry) = resolve_spec::<FFI, RT>(s, fuel, o);
            if ry is Ok {
                lemma_resolve_present::<FFI, RT>(s1, fuel, o);
            }
        },
    }
}

/// The topmost `If` lies within the stack.
pub proof fn lemma_find_if_bound<FFI>(stack: Seq<CellView<FFI>>)
    ensures
        find_if(stack) matches Some(i) ==> 0 <= i < stack.len(),
    decreases stack.len(),
{
    if stack.len() > 0 && stack.last() != CellView::<FFI>::Op(OpView::If) {
        lemma_find_if_bound(stack.drop_last());
    }
}

/// An assignment changes variables only.
pub proof fn lemma_assign_keeps<FFI>(s: VMState<FFI>, name: Name, v: CellData)
    requires
        within_capacity(s),
    ensures
        kept_spec(s, assign(s, name, v).0),
        assign(s, name, v).0.stack == s.stack,
        assign(s, name, v).0.return_stack == s.return_stack,
{
}

/// A declaration changes variables only.
pub proof fn lemma_declare_keeps<FFI>(s: VMState<FFI>, name: Name)
    requires
        within_capacity(s),
    ensures
        kept_spec(s, declare(s, name).0),
        declare(s, name).0.stack == s.stack,
        declare(s, name).0.return_stack == s.return_stack,
{
}

/// Strings: a text that is packed onto the data stack is taken off again as
/// the same text, and the stack below it is left as it was, whenever the
/// capacity admits the text.
pub proof fn lemma_string_round_trip<FFI>(
    stack: Seq<CellView<FFI>>,
    text: Seq<char>,
    capacity: int,
)
    requires
        vstd::utf8::encode_utf8(text).len() <= MAX_PACKED_LEN,
        vstd::utf8::encode_utf8(text).len() <= capacity,
    ensures
        take_text(stack + pack_spec::<FFI>(vstd::utf8::encode_utf8(text)), capacity) == Some(
            (text, stack),
        ),
{
    let bytes = vstd::utf8::encode_utf8(text);
    let packed = pack_spec::<FFI>(bytes);
    let whole = stack + packed;
    let len = bytes.len() as int;
    assert(packed.last() == len_marker::<FFI>(len));
    assert(whole.last() == packed.last());
    assert(marker_len(whole.last()) == Some(len)) by {
        assert((len * 0x1_0000) as i32 == len * 0x1_0000);
    }
    let n = words_needed(len) + 1;
    assert(packed.len() == n);
    assert(whole.skip(whole.len() - n) =~= packed);
    assert(whole.take(whole.len() - n) =~= stack);
    lemma_pack_unpack::<FFI>(bytes, capacity);
    vstd::utf8::encode_utf8_valid_utf8(text);
    vstd::utf8::encode_utf8_decode_utf8(text);
}

} // verus!
