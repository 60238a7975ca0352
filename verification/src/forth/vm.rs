//! The bytecode machine: two stacks of cells, scoped variables, a function
//! table, and the driver that evaluates what lies on top of the data stack.

use crate::forth::cell::{answer_view, cells_view, CellView, Name, OpView};
use crate::forth::semantics::{
    agrees, allowed, answered, apply_binary, assign, binary_spec, bind_spec, call_spec, collect_spec,
    declare, eval_exit, eval_spec, extends, ffi_spec, find_else, find_if, leave_scope,
    lemma_agrees_earlier, lookup, resolve_spec, run_spec, splice_branch, split_conditional,
    take_name, take_text, then_spec, top_is_op, within_capacity, ForeignCall, Oracle, VMState, NAME_CAPACITY,
    RETURN_STACK_CAPACITY, SCOPES_CAPACITY,
};
use crate::forth::store::{find_key, Store, FUNCS_CAPACITY, PARAMS_CAPACITY, STACK_CAPACITY};
use crate::forth::util::{packed_cells, unpack_str, words_needed};
use vstd::prelude::*;

pub use crate::forth::cell::{Cell, FFIError, FFIOps, Op, Param, VMError, ValError};
pub use crate::forth::cell_data::CellData;
pub use crate::forth::store::{FuncDef, FuncTable, VarStorage};

verus! {

/// Steps that one call of the driver may take before it gives up.
pub const STEP_BUDGET: u64 = 0xffff_ffff_ffff_ffff;

/// The views of a stack of scopes.
pub open spec fn scopes_view(scopes: Seq<VarStorage>) -> Seq<Store> {
    scopes.map_values(|s: VarStorage| s@)
}

/// The machine, with the runtime of its host.
pub struct VM<FFI, RT> {
    pub stack: Vec<Cell<FFI>>,
    pub return_stack: Vec<Cell<FFI>>,
    pub return_addr: Option<usize>,
    pub globals: VarStorage,
    pub locals: Vec<VarStorage>,
    pub funcs: FuncTable<FFI>,
    pub runtime: RT,
    /// The foreign calls made so far, for specifications.
    pub history: Ghost<Seq<ForeignCall<FFI>>>,
}

impl<FFI, RT> View for VM<FFI, RT> {
    type V = VMState<FFI>;

    open spec fn view(&self) -> VMState<FFI> {
        VMState {
            stack: cells_view(self.stack@),
            return_stack: cells_view(self.return_stack@),
            return_addr: self.return_addr,
            globals: self.globals@,
            locals: scopes_view(self.locals@),
            funcs: self.funcs@,
            history: self.history@,
        }
    }
}

/// The view of a longer sequence of cells, piece by piece.
pub proof fn lemma_cells_view<FFI>(a: Seq<Cell<FFI>>, b: Seq<Cell<FFI>>, c: Cell<FFI>, n: int)
    ensures
        cells_view(a.push(c)) == cells_view(a).push(c@),
        cells_view(a + b) == cells_view(a) + cells_view(b),
        a.len() > 0 ==> cells_view(a.drop_last()) == cells_view(a).drop_last(),
        a.len() > 0 ==> cells_view(a).last() == a.last()@,
        0 <= n <= a.len() ==> cells_view(a.take(n)) == cells_view(a).take(n),
        0 <= n <= a.len() ==> cells_view(a.skip(n)) == cells_view(a).skip(n),
{
    assert(cells_view(a.push(c)) =~= cells_view(a).push(c@));
    assert(cells_view(a + b) =~= cells_view(a) + cells_view(b));
    if a.len() > 0 {
        assert(cells_view(a.drop_last()) =~= cells_view(a).drop_last());
    }
    if 0 <= n <= a.len() {
        assert(cells_view(a.take(n)) =~= cells_view(a).take(n));
        assert(cells_view(a.skip(n)) =~= cells_view(a).skip(n));
    }
}

impl<FFI: FFIOps<RT>, RT> VM<FFI, RT> {
    /// Every collection is within its capacity, names are unique in every
    /// table, and every foreign call on record was answered as its operation
    /// allows.
    pub open spec fn wf(&self) -> bool {
        &&& within_capacity(self@)
        &&& self.globals.wf()
        &&& forall|i: int| 0 <= i < self.locals@.len() ==> (#[trigger] self.locals@[i]).wf()
        &&& self.funcs.wf()
        &&& allowed::<FFI, RT>(self.history@)
    }

    /// The machine with both stacks empty, no variables and no functions.
    pub fn new_empty(runtime: RT) -> (vm: Self)
        ensures
            vm.wf(),
            vm.runtime == runtime,
            vm@ == (VMState::<FFI> {
                stack: Seq::empty(),
                return_stack: Seq::empty(),
                return_addr: None,
                globals: Seq::empty(),
                locals: Seq::empty(),
                funcs: Seq::empty(),
                history: Seq::empty(),
            }),
    {
        let vm = VM {
            stack: Vec::new(),
            return_stack: Vec::new(),
            return_addr: None,
            globals: VarStorage::new(),
            locals: Vec::new(),
            funcs: FuncTable::new(),
            runtime,
            history: Ghost(Seq::empty()),
        };
        proof {
            assert(vm@.stack =~= Seq::empty());
            assert(vm@.return_stack =~= Seq::empty());
            assert(vm@.locals =~= Seq::empty());
        }
        vm
    }

    /// The machine with the given program on its data stack and the given
    /// functions.
    pub fn new(stack: Vec<Cell<FFI>>, funcs: FuncTable<FFI>, runtime: RT) -> (vm: Self)
        requires
            stack@.len() <= STACK_CAPACITY,
            funcs.wf(),
        ensures
            vm.wf(),
            vm.runtime == runtime,
            vm@ == (VMState::<FFI> {
                stack: cells_view(stack@),
                return_stack: Seq::empty(),
                return_addr: None,
                globals: Seq::empty(),
                locals: Seq::empty(),
                funcs: funcs@,
                history: Seq::empty(),
            }),
    {
        let vm = VM {
            stack,
            return_stack: Vec::new(),
            return_addr: None,
            globals: VarStorage::new(),
            locals: Vec::new(),
            funcs,
            runtime,
            history: Ghost(Seq::empty()),
        };
        proof {
            assert(vm@.return_stack =~= Seq::empty());
            assert(vm@.locals =~= Seq::empty());
        }
        vm
    }

    /// Whether the parts of a machine are well formed: every collection is
    /// within its capacity, and no name occurs twice in a table.
    pub open spec fn parts_wf(
        stack: Vec<Cell<FFI>>,
        return_stack: Vec<Cell<FFI>>,
        globals: VarStorage,
        locals: Vec<VarStorage>,
        funcs: FuncTable<FFI>,
    ) -> bool {
        &&& stack@.len() <= STACK_CAPACITY
        &&& return_stack@.len() <= RETURN_STACK_CAPACITY
        &&& locals@.len() <= SCOPES_CAPACITY
        &&& globals.wf()
        &&& forall|i: int| 0 <= i < locals@.len() ==> (#[trigger] locals@[i]).wf()
        &&& funcs.wf()
    }

    /// The machine made of the given parts, which may come from anywhere:
    /// they are checked. `Malformed` when they are not well formed.
    ///
    /// The parts of a machine, put together again with any runtime, give a
    /// machine in the same state that has made no foreign call yet.
    pub fn from_parts(
        stack: Vec<Cell<FFI>>,
        return_stack: Vec<Cell<FFI>>,
        return_addr: Option<usize>,
        globals: VarStorage,
        locals: Vec<VarStorage>,
        funcs: FuncTable<FFI>,
        runtime: RT,
    ) -> (r: Result<Self, VMError>)
        ensures
            match r {
                Ok(vm) => Self::parts_wf(stack, return_stack, globals, locals, funcs) && vm.wf()
                    && vm.runtime == runtime && vm.stack == stack && vm.return_stack
                    == return_stack && vm.return_addr == return_addr && vm.globals == globals
                    && vm.locals == locals && vm.funcs == funcs && vm@.history == Seq::<
                    ForeignCall<FFI>,
                >::empty(),
                Err(e) => e == VMError::Malformed && !Self::parts_wf(
                    stack,
                    return_stack,
                    globals,
                    locals,
                    funcs,
                ),
            },
    {
        if stack.len() > STACK_CAPACITY || return_stack.len() > RETURN_STACK_CAPACITY
            || locals.len() > SCOPES_CAPACITY {
            return Err(VMError::Malformed);
        }
        if !globals.check() || !funcs.check() {
            return Err(VMError::Malformed);
        }
        let mut i: usize = 0;
        while i < locals.len()
            invariant
                i <= locals@.len(),
                forall|k: int| 0 <= k < i ==> (#[trigger] locals@[k]).wf(),
            decreases locals.len() - i,
        {
            if !locals[i].check() {
                return Err(VMError::Malformed);
            }
            i += 1;
        }
        let vm = VM {
            stack,
            return_stack,
            return_addr,
            globals,
            locals,
            funcs,
            runtime,
            history: Ghost(Seq::empty()),
        };
        proof {
            assert(cells_view(vm.stack@).len() == vm.stack@.len());
            assert(cells_view(vm.return_stack@).len() == vm.return_stack@.len());
            assert(scopes_view(vm.locals@).len() == vm.locals@.len());
        }
        Ok(vm)
    }

    /// Takes the machine apart into what [`VM::from_parts`] takes.
    pub fn into_parts(self) -> (r: (
        Vec<Cell<FFI>>,
        Vec<Cell<FFI>>,
        Option<usize>,
        VarStorage,
        Vec<VarStorage>,
        FuncTable<FFI>,
        RT,
    ))
        ensures
            r == (
                self.stack,
                self.return_stack,
                self.return_addr,
                self.globals,
                self.locals,
                self.funcs,
                self.runtime,
            ),
            self.wf() ==> Self::parts_wf(r.0, r.1, r.3, r.4, r.5),
    {
        proof {
            assert(cells_view(self.stack@).len() == self.stack@.len());
            assert(cells_view(self.return_stack@).len() == self.return_stack@.len());
            assert(scopes_view(self.locals@).len() == self.locals@.len());
        }
        (
            self.stack,
            self.return_stack,
            self.return_addr,
            self.globals,
            self.locals,
            self.funcs,
            self.runtime,
        )
    }

    /// Takes the machine apart and gives the runtime back.
    pub fn dismember(self) -> (rt: RT)
        ensures
            rt == self.runtime,
    {
        self.runtime
    }

    /// The data stack, its top last.
    pub fn stack(&self) -> (r: &[Cell<FFI>])
        ensures
            r@ == self.stack@,
    {
        self.stack.as_slice()
    }

    /// The return stack, its top last.
    pub fn return_stack(&self) -> (r: &[Cell<FFI>])
        ensures
            r@ == self.return_stack@,
    {
        self.return_stack.as_slice()
    }

    /// The runtime.
    pub fn runtime(&self) -> (r: &RT)
        ensures
            *r == self.runtime,
    {
        &self.runtime
    }

    /// The function table.
    pub fn funcs(&self) -> (r: &FuncTable<FFI>)
        ensures
            *r == self.funcs,
    {
        &self.funcs
    }

    /// The global variables.
    pub fn globals(&self) -> (r: &VarStorage)
        ensures
            *r == self.globals,
    {
        &self.globals
    }

    /// The top of the data stack.
    pub fn top(&self) -> (r: Option<&Cell<FFI>>)
        ensures
            match r {
                Some(c) => self.stack@.len() > 0 && *c == self.stack@.last(),
                None => self.stack@.len() == 0,
            },
    {
        let n = self.stack.len();
        if n == 0 {
            None
        } else {
            Some(&self.stack[n - 1])
        }
    }

    /// Pushes a cell on the data stack, which must have room for it.
    pub fn push(&mut self, i: Cell<FFI>)
        requires
            old(self).wf(),
            old(self)@.stack.len() < STACK_CAPACITY,
        ensures
            final(self).wf(),
            final(self).runtime == old(self).runtime,
            final(self).funcs == old(self).funcs,
            final(self)@ == (VMState { stack: old(self)@.stack.push(i@), ..old(self)@ }),
    {
        proof {
            lemma_cells_view(self.stack@, Seq::empty(), i, 0);
        }
        self.stack.push(i);
    }

    /// Takes the top cell off the data stack; `Underflow` when it is empty.
    pub fn pop(&mut self) -> (r: Result<Cell<FFI>, VMError>)
        requires
            old(self).wf(),
        ensures
            final(self).wf(),
            final(self).runtime == old(self).runtime,
            final(self).funcs == old(self).funcs,
            match r {
                Ok(c) => old(self)@.stack.len() > 0 && c@ == old(self)@.stack.last() && final(self)@
                    == (VMState { stack: old(self)@.stack.drop_last(), ..old(self)@ }),
                Err(e) => e == VMError::Underflow && old(self)@.stack.len() == 0 && final(self)@
                    == old(self)@,
            },
    {
        proof {
            lemma_cells_view(self.stack@, Seq::empty(), Cell::Null, 0);
        }
        match self.stack.pop() {
            Some(c) => Ok(c),
            None => Err(VMError::Underflow),
        }
    }

    /// Takes the top cell off the data stack, which must not be empty.
    pub fn pop_unchecked(&mut self) -> (c: Cell<FFI>)
        requires
            old(self).wf(),
            old(self)@.stack.len() > 0,
        ensures
            final(self).wf(),
            final(self).runtime == old(self).runtime,
            final(self).funcs == old(self).funcs,
            c@ == old(self)@.stack.last(),
            final(self)@ == (VMState { stack: old(self)@.stack.drop_last(), ..old(self)@ }),
    {
        proof {
            lemma_cells_view(self.stack@, Seq::empty(), Cell::Null, 0);
        }
        match self.stack.pop() {
            Some(c) => c,
            None => Cell::Null,
        }
    }

    /// Pushes a cell on the return stack, which must have room for it.
    pub fn push_return(&mut self, i: Cell<FFI>)
        requires
            old(self).wf(),
            old(self)@.return_stack.len() < RETURN_STACK_CAPACITY,
        ensures
            final(self).wf(),
            final(self).runtime == old(self).runtime,
            final(self).funcs == old(self).funcs,
            final(self)@ == (VMState {
                return_stack: old(self)@.return_stack.push(i@),
                ..old(self)@
            }),
    {
        proof {
            lemma_cells_view(self.return_stack@, Seq::empty(), i, 0);
        }
        self.return_stack.push(i);
    }

    /// Takes the top cell off the return stack; `Underflow` when it is empty.
    pub fn pop_return(&mut self) -> (r: Result<Cell<FFI>, VMError>)
        requires
            old(self).wf(),
        ensures
            final(self).wf(),
            final(self).runtime == old(self).runtime,
            final(self).funcs == old(self).funcs,
            match r {
                Ok(c) => old(self)@.return_stack.len() > 0 && c@ == old(self)@.return_stack.last()
                    && final(self)@ == (VMState {
                    return_stack: old(self)@.return_stack.drop_last(),
                    ..old(self)@
                }),
                Err(e) => e == VMError::Underflow && old(self)@.return_stack.len() == 0
                    && final(self)@ == old(self)@,
            },
    {
        proof {
            lemma_cells_view(self.return_stack@, Seq::empty(), Cell::Null, 0);
        }
        match self.return_stack.pop() {
            Some(c) => Ok(c),
            None => Err(VMError::Underflow),
        }
    }

    /// Cuts the data stack back to the saved return address and forgets the
    /// address. There must be one.
    pub fn exit_fn(&mut self)
        requires
            old(self).wf(),
            old(self).return_addr is Some,
        ensures
            final(self).wf(),
            final(self).runtime == old(self).runtime,
            final(self).funcs == old(self).funcs,
            (final(self)@, Ok::<(), VMError>(())) == eval_exit(old(self)@),
    {
        let ret = match self.return_addr {
            Some(ret) => ret,
            None => 0,
        };
        self.return_addr = None;
        proof {
            lemma_cells_view(self.stack@, Seq::empty(), Cell::Null, ret as int);
        }
        if ret < self.stack.len() {
            self.stack.truncate(ret);
        }
    }

    /// Moves the top of the data stack to the return stack. The data stack
    /// must not be empty and the return stack not full.
    pub fn do_return(&mut self)
        requires
            old(self).wf(),
            old(self)@.stack.len() > 0,
            old(self)@.return_stack.len() < RETURN_STACK_CAPACITY,
        ensures
            final(self).wf(),
            final(self).runtime == old(self).runtime,
            final(self).funcs == old(self).funcs,
            final(self)@ == (VMState {
                stack: old(self)@.stack.drop_last(),
                return_stack: old(self)@.return_stack.push(old(self)@.stack.last()),
                ..old(self)@
            }),
    {
        let top = self.pop_unchecked();
        self.push_return(top);
    }
}

/// The result of a binary operation; see [`apply_binary`].
pub fn apply<FFI>(op: &Op<FFI>, x: CellData, y: CellData) -> (r: Result<CellData, VMError>)
    ensures
        r == apply_binary(op@, x, y),
{
    match op {
        Op::EqEq => Ok(CellData::from_bool(x.bits == y.bits)),
        Op::NotEq => Ok(CellData::from_bool(x.bits != y.bits)),
        Op::Lt => Ok(CellData::from_bool(x.bits < y.bits)),
        Op::LtEq => Ok(CellData::from_bool(x.bits <= y.bits)),
        Op::Gt => Ok(CellData::from_bool(x.bits > y.bits)),
        Op::GtEq => Ok(CellData::from_bool(x.bits >= y.bits)),
        Op::Add => Ok(x.wrapping_add(y)),
        Op::Sub => Ok(x.wrapping_sub(y)),
        Op::Mul => Ok(x.wrapping_mul(y)),
        Op::Div => match x.checked_div(y) {
            Some(v) => Ok(v),
            None => Err(VMError::DivByZero),
        },
        Op::Mod => match x.checked_rem(y) {
            Some(v) => Ok(v),
            None => Err(VMError::DivByZero),
        },
        Op::And => Ok(x.bitand(y)),
        Op::Or => Ok(x.bitor(y)),
        _ => Err(VMError::Malformed),
    }
}

/// Number of cells of the packed string whose length marker is `c`.
pub fn packed_count<FFI>(c: &Cell<FFI>) -> (r: Option<usize>)
    ensures
        match r {
            Some(n) => packed_cells(c@) == Some(n as int),
            None => packed_cells(c@) is None,
        },
{
    match c {
        Cell::Val(v) => {
            let bits = v.to_bits();
            if bits >= 0 && bits % 0x1_0000 == 0 {
                let len = (bits / 0x1_0000) as usize;
                Some((len + 3) / 4 + 1)
            } else {
                None
            }
        },
        _ => None,
    }
}

impl<FFI: FFIOps<RT>, RT> VM<FFI, RT> {
    /// Takes the top `n` cells off the data stack, in the order in which
    /// they lie.
    fn take_top(&mut self, n: usize) -> (top: Vec<Cell<FFI>>)
        requires
            old(self).wf(),
            n <= old(self)@.stack.len(),
        ensures
            final(self).wf(),
            final(self).runtime == old(self).runtime,
            final(self).funcs == old(self).funcs,
            cells_view(top@) == old(self)@.stack.skip(old(self)@.stack.len() - n),
            final(self)@ == (VMState {
                stack: old(self)@.stack.take(old(self)@.stack.len() - n),
                ..old(self)@
            }),
    {
        let len = self.stack.len();
        proof {
            lemma_cells_view(self.stack@, Seq::empty(), Cell::Null, len - n);
        }
        self.stack.split_off(len - n)
    }

    /// Puts `cells` on top of the data stack, which must have room for them.
    fn put_top(&mut self, cells: Vec<Cell<FFI>>)
        requires
            old(self).wf(),
            old(self)@.stack.len() + cells@.len() <= STACK_CAPACITY,
        ensures
            final(self).wf(),
            final(self).runtime == old(self).runtime,
            final(self).funcs == old(self).funcs,
            final(self)@ == (VMState {
                stack: old(self)@.stack + cells_view(cells@),
                ..old(self)@
            }),
    {
        let mut cells = cells;
        proof {
            lemma_cells_view(self.stack@, cells@, Cell::Null, 0);
        }
        self.stack.append(&mut cells);
    }

    /// Opens a scope and saves the stack length as the return address. There
    /// must be room for the scope.
    fn enter(&mut self)
        requires
            old(self).wf(),
            old(self)@.locals.len() < SCOPES_CAPACITY,
        ensures
            final(self).wf(),
            final(self).runtime == old(self).runtime,
            final(self).funcs == old(self).funcs,
            final(self)@ == (VMState {
                locals: old(self)@.locals.push(Seq::empty()),
                return_addr: Some(old(self)@.stack.len() as usize),
                ..old(self)@
            }),
    {
        let ghost before = self.locals@;
        let scope = VarStorage::new();
        self.locals.push(scope);
        self.return_addr = Some(self.stack.len());
        proof {
            assert(scopes_view(self.locals@) =~= scopes_view(before).push(Seq::empty()));
            assert forall|i: int| 0 <= i < self.locals@.len() implies (
            #[trigger] self.locals@[i]).wf() by {
                if i < before.len() {
                    assert(before[i].wf());
                }
            }
        }
    }

    /// Closes the innermost scope, if there is one.
    fn leave(&mut self)
        requires
            old(self).wf(),
        ensures
            final(self).wf(),
            final(self).runtime == old(self).runtime,
            final(self).funcs == old(self).funcs,
            final(self)@ == leave_scope(old(self)@),
    {
        let ghost before = self.locals@;
        let _ = self.locals.pop();
        proof {
            if before.len() > 0 {
                assert(scopes_view(self.locals@) =~= scopes_view(before).drop_last());
                assert forall|i: int| 0 <= i < self.locals@.len() implies (
                #[trigger] self.locals@[i]).wf() by {
                    assert(before[i].wf());
                }
            }
        }
    }

    /// Puts `Nruter` and a copy of the body of the function at `idx` on the
    /// data stack, which must have room for them.
    fn load_body(&mut self, idx: usize)
        requires
            old(self).wf(),
            idx < old(self)@.funcs.len(),
            old(self)@.stack.len() + 1 + old(self)@.funcs[idx as int].1.body.len()
                <= STACK_CAPACITY,
        ensures
            final(self).wf(),
            final(self).runtime == old(self).runtime,
            final(self).funcs == old(self).funcs,
            final(self)@ == (VMState {
                stack: old(self)@.stack.push(CellView::Op(OpView::Nruter))
                    + old(self)@.funcs[idx as int].1.body,
                ..old(self)@
            }),
    {
        self.push(Cell::Op(Op::Nruter));
        let ghost base = self@.stack;
        let ghost body = self.funcs.entries@[idx as int].1.stack@;
        assert(self@.funcs[idx as int].1.body == cells_view(body));
        let n = self.funcs.entries[idx].1.stack.len();
        let mut i: usize = 0;
        while i < n
            invariant
                self.wf(),
                self.runtime == old(self).runtime,
                self.funcs == old(self).funcs,
                idx < self.funcs.entries@.len(),
                body == self.funcs.entries@[idx as int].1.stack@,
                n == body.len(),
                i <= n,
                base.len() + n <= STACK_CAPACITY,
                self@ == (VMState { stack: base + cells_view(body.take(i as int)), ..old(self)@ }),
            decreases n - i,
        {
            let c = self.funcs.entries[idx].1.stack[i].clone();
            proof {
                lemma_cells_view(body.take(i as int), Seq::empty(), c, 0);
                assert(body.take(i as int + 1) =~= body.take(i as int).push(c));
                assert((base + cells_view(body.take(i as int))).push(c@) =~= base + cells_view(
                    body.take(i as int),
                ).push(c@));
            }
            self.push(c);
            i += 1;
        }
        proof {
            assert(body.take(n as int) =~= body);
        }
    }

    /// Puts the assignment and the declaration of parameter `i` of the
    /// function at `idx` on the data stack, which must have room for them.
    fn push_binding(&mut self, idx: usize, i: usize)
        requires
            old(self).wf(),
            idx < old(self)@.funcs.len(),
            i < old(self)@.funcs[idx as int].1.params.len(),
            old(self)@.stack.len() + 2 <= STACK_CAPACITY,
        ensures
            final(self).wf(),
            final(self).runtime == old(self).runtime,
            final(self).funcs == old(self).funcs,
            final(self)@ == (VMState {
                stack: old(self)@.stack.push(
                    CellView::Op(OpView::SetVar(old(self)@.funcs[idx as int].1.params[i as int])),
                ).push(
                    CellView::Op(OpView::DeclVar(old(self)@.funcs[idx as int].1.params[i as int])),
                ),
                ..old(self)@
            }),
    {
        assert(self@.funcs[idx as int].1.params[i as int]
            == self.funcs.entries@[idx as int].1.params@[i as int]@);
        let p = self.funcs.entries[idx].1.params[i].clone();
        let q = p.clone();
        self.push(Cell::Op(Op::SetVar(p)));
        self.push(Cell::Op(Op::DeclVar(q)));
    }

    /// Declares `name` in the current scope; see [`declare`].
    fn try_declare(&mut self, name: String) -> (r: Result<(), VMError>)
        requires
            old(self).wf(),
        ensures
            final(self).wf(),
            final(self).runtime == old(self).runtime,
            final(self).funcs == old(self).funcs,
            (final(self)@, r) == declare(old(self)@, name@),
    {
        let ghost before = self.locals@;
        match self.locals.pop() {
            Some(scope) => {
                let mut scope = scope;
                assert(before.last().wf());
                assert(scopes_view(before).last() == before.last()@);
                let ok = scope.insert(name, None);
                self.locals.push(scope);
                proof {
                    assert(scopes_view(self.locals@) =~= scopes_view(before).update(
                        before.len() - 1,
                        scope@,
                    ));
                    assert forall|i: int| 0 <= i < self.locals@.len() implies (
                    #[trigger] self.locals@[i]).wf() by {
                        if i < before.len() - 1 {
                            assert(before[i].wf());
                        }
                    }
                    if !ok {
                        assert(scopes_view(self.locals@) =~= scopes_view(before));
                    }
                }
                if ok {
                    Ok(())
                } else {
                    Err(VMError::Overflow)
                }
            },
            None => {
                assert(scopes_view(self.locals@) =~= scopes_view(before));
                if self.globals.insert(name, None) {
                    Ok(())
                } else {
                    Err(VMError::Overflow)
                }
            },
        }
    }

    /// Gives `name` the value `v`; see [`assign`].
    fn try_assign(&mut self, name: String, v: CellData) -> (r: Result<(), VMError>)
        requires
            old(self).wf(),
        ensures
            final(self).wf(),
            final(self).runtime == old(self).runtime,
            final(self).funcs == old(self).funcs,
            (final(self)@, r) == assign(old(self)@, name@, v),
    {
        let ghost before = self.locals@;
        let n = self.locals.len();
        let local = if n > 0 {
            assert(scopes_view(before).last() == before.last()@);
            self.locals[n - 1].contains_key(&name)
        } else {
            false
        };
        if local {
            match self.locals.pop() {
                Some(scope) => {
                    let mut scope = scope;
                    assert(before.last().wf());
                    let _ = scope.insert(name, Some(v));
                    self.locals.push(scope);
                    proof {
                        assert(scopes_view(self.locals@) =~= scopes_view(before).update(
                            before.len() - 1,
                            scope@,
                        ));
                        assert forall|i: int| 0 <= i < self.locals@.len() implies (
                        #[trigger] self.locals@[i]).wf() by {
                            if i < before.len() - 1 {
                                assert(before[i].wf());
                            }
                        }
                    }
                    Ok(())
                },
                None => Ok(()),
            }
        } else {
            if self.globals.insert(name, Some(v)) {
                Ok(())
            } else {
                Err(VMError::Overflow)
            }
        }
    }

    /// The value of `name`; see [`lookup`].
    fn read_var(&self, name: &String) -> (r: Option<Option<CellData>>)
        ensures
            r == lookup(self@, name@),
    {
        let n = self.locals.len();
        if n > 0 {
            assert(scopes_view(self.locals@).last() == self.locals@.last()@);
            match self.locals[n - 1].lookup(name) {
                Some(v) => Some(v),
                None => self.globals.lookup(name),
            }
        } else {
            self.globals.lookup(name)
        }
    }

    /// Ends a conditional; see [`splice_branch`].
    fn splice(&mut self, consequent: Vec<Cell<FFI>>, alternative: Vec<Cell<FFI>>) -> (r: Result<
        (),
        VMError,
    >)
        requires
            old(self).wf(),
        ensures
            final(self).wf(),
            final(self).runtime == old(self).runtime,
            final(self).funcs == old(self).funcs,
            (final(self)@, r) == splice_branch(
                old(self)@,
                cells_view(consequent@),
                cells_view(alternative@),
            ),
    {
        let n = self.stack.len();
        if n == 0 {
            return Err(VMError::Malformed);
        }
        proof {
            lemma_cells_view(self.stack@, Seq::empty(), Cell::Null, 0);
        }
        let chosen = match &self.stack[n - 1] {
            Cell::Val(c) => c.bits == crate::forth::cell_data::ONE_BITS,
            _ => {
                return Err(VMError::Malformed);
            },
        };
        let branch = if chosen {
            consequent
        } else {
            alternative
        };
        if branch.len() > STACK_CAPACITY - (n - 1) {
            return Err(VMError::Overflow);
        }
        let _ = self.pop_unchecked();
        self.put_top(branch);
        Ok(())
    }

    /// Splits a conditional off the data stack; see [`split_conditional`].
    /// Returns the consequent and the alternative and leaves the base.
    fn take_conditional(&mut self) -> (r: Option<(Vec<Cell<FFI>>, Vec<Cell<FFI>>)>)
        requires
            old(self).wf(),
        ensures
            final(self).wf(),
            final(self).runtime == old(self).runtime,
            final(self).funcs == old(self).funcs,
            match split_conditional(old(self)@.stack) {
                None => r is None && final(self)@ == old(self)@,
                Some(parts) => r is Some && cells_view(r->Some_0.0@) == parts.consequent
                    && cells_view(r->Some_0.1@) == parts.alternative && final(self)@ == (VMState {
                    stack: parts.base,
                    ..old(self)@
                }),
            },
    {
        let ghost view = self@.stack;
        let len = self.stack.len();
        let mut i: usize = len;
        let mut found = false;
        assert(view.take(len as int) =~= view);
        while i > 0 && !found
            invariant
                i <= len,
                len == self.stack@.len(),
                view == cells_view(self.stack@),
                !found ==> find_if(view) == find_if(view.take(i as int)),
                found ==> i < len && find_if(view) == Some(i as int),
            decreases i + (if found { 0int } else { 1int }),
        {
            let is_if = match &self.stack[i - 1] {
                Cell::Op(Op::If) => true,
                _ => false,
            };
            proof {
                assert(view.take(i as int).last() == view[i - 1]);
                assert(view.take(i as int).drop_last() =~= view.take(i - 1));
                assert((view[i - 1] == CellView::<FFI>::Op(OpView::If)) == is_if);
            }
            i = i - 1;
            if is_if {
                found = true;
            }
        }
        if !found {
            proof {
                assert(view.take(0) =~= Seq::empty());
            }
            return None;
        }
        let if_idx = i;
        let mut j: usize = if_idx + 1;
        let mut has_else = false;
        while j < len && !has_else
            invariant
                if_idx < j <= len,
                len == self.stack@.len(),
                view == cells_view(self.stack@),
                !has_else ==> find_else(view, if_idx + 1) == find_else(view, j as int),
                has_else ==> j < len && find_else(view, if_idx + 1) == Some(j as int),
            decreases len - j + (if has_else { 0int } else { 1int }),
        {
            let is_else = match &self.stack[j] {
                Cell::Op(Op::Else) => true,
                _ => false,
            };
            proof {
                assert((view[j as int] == CellView::<FFI>::Op(OpView::Else)) == is_else);
            }
            if is_else {
                has_else = true;
            } else {
                j = j + 1;
            }
        }
        let end = j;
        if if_idx == 0 || end == if_idx + 1 {
            return None;
        }
        proof {
            lemma_cells_view(self.stack@, Seq::empty(), Cell::Null, end as int);
            lemma_cells_view(self.stack@, Seq::empty(), Cell::Null, if_idx as int);
        }
        let alternative = if end < len {
            let alt = self.take_top(len - end - 1);
            let _ = self.pop_unchecked();
            alt
        } else {
            Vec::new()
        };
        let consequent = self.take_top(end - if_idx - 1);
        let _ = self.pop_unchecked();
        proof {
            let parts = split_conditional(view)->Some_0;
            if end < len {
                assert(cells_view(alternative@) =~= parts.alternative);
            } else {
                assert(cells_view(alternative@) =~= parts.alternative);
            }
            assert(cells_view(consequent@) =~= parts.consequent);
            assert(self@.stack =~= parts.base);
        }
        Some((consequent, alternative))
    }
}

/// What every part of the driver keeps: the machine stays well formed, the
/// history is continued, the function table is untouched, and as many scopes
/// are open as before.
pub open spec fn kept<FFI: FFIOps<RT>, RT>(before: VM<FFI, RT>, after: VM<FFI, RT>) -> bool {
    &&& after.wf()
    &&& after.funcs == before.funcs
    &&& extends(before@.history, after@.history)
    &&& after@.locals.len() == before@.locals.len()
}

impl<FFI: FFIOps<RT>, RT> VM<FFI, RT> {
    /// The driver with a budget of `fuel` steps; see [`run_spec`].
    pub fn drive(&mut self, fuel: u64) -> (r: Result<(), VMError>)
        requires
            old(self).wf(),
        ensures
            kept(*old(self), *final(self)),
            r is Ok ==> !top_is_op(final(self)@.stack),
            forall|o: Oracle<FFI>| #[trigger]
                agrees(o, final(self)@.history) ==> (final(self)@, r) == run_spec::<FFI, RT>(
                    old(self)@,
                    fuel as nat,
                    o,
                ),
        decreases fuel, 0nat,
    {
        let mut f = fuel;
        loop
            invariant
                kept(*old(self), *self),
                f <= fuel,
                forall|o: Oracle<FFI>| #[trigger]
                    agrees(o, self@.history) ==> run_spec::<FFI, RT>(old(self)@, fuel as nat, o)
                        == run_spec::<FFI, RT>(self@, f as nat, o),
            decreases f,
        {
            proof {
                lemma_cells_view(self.stack@, Seq::empty(), Cell::Null, 0);
            }
            let is_op = match self.top() {
                Some(Cell::Op(_)) => true,
                _ => false,
            };
            if !is_op {
                return Ok(());
            }
            if f == 0 {
                return Err(VMError::Exhausted);
            }
            f = f - 1;
            let ghost before = self@;
            let op = match self.pop_unchecked() {
                Cell::Op(op) => op,
                _ => vstd::pervasive::unreached(),
            };
            let res = self.eval(op, f);
            proof {
                assert forall|o: Oracle<FFI>| #[trigger] agrees(o, self@.history) implies run_spec::<
                    FFI,
                    RT,
                >(old(self)@, fuel as nat, o) == (match res {
                    Err(e) => (self@, res),
                    Ok(_) => run_spec::<FFI, RT>(self@, f as nat, o),
                }) by {
                    lemma_agrees_earlier(o, before.history, self@.history);
                    assert(run_spec::<FFI, RT>(before, (f + 1) as nat, o) == (match res {
                        Err(e) => (self@, res),
                        Ok(_) => run_spec::<FFI, RT>(self@, f as nat, o),
                    }));
                }
            }
            match res {
                Err(e) => {
                    return Err(e);
                },
                Ok(_) => {},
            }
        }
    }

    /// Drives the stack, then takes the top cell off as a number; see
    /// [`resolve_spec`].
    fn resolve(&mut self, fuel: u64) -> (r: Result<CellData, VMError>)
        requires
            old(self).wf(),
        ensures
            kept(*old(self), *final(self)),
            r is Ok ==> final(self)@.stack.len() < STACK_CAPACITY,
            forall|o: Oracle<FFI>| #[trigger]
                agrees(o, final(self)@.history) ==> (final(self)@, r) == resolve_spec::<FFI, RT>(
                    old(self)@,
                    fuel as nat,
                    o,
                ),
        decreases fuel, 1nat,
    {
        match self.drive(fuel) {
            Err(e) => {
                return Err(e);
            },
            Ok(_) => {},
        }
        match self.pop() {
            Err(e) => Err(e),
            Ok(c) => match c.checked_val() {
                Ok(v) => Ok(v),
                Err(e) => Err(VMError::Val(e)),
            },
        }
    }

    /// A binary operation; see [`binary_spec`].
    fn binary_op(&mut self, op: &Op<FFI>, fuel: u64) -> (r: Result<(), VMError>)
        requires
            old(self).wf(),
        ensures
            kept(*old(self), *final(self)),
            forall|o: Oracle<FFI>| #[trigger]
                agrees(o, final(self)@.history) ==> (final(self)@, r) == binary_spec::<FFI, RT>(
                    old(self)@,
                    op@,
                    fuel as nat,
                    o,
                ),
        decreases fuel, 2nat,
    {
        let y = match self.resolve(fuel) {
            Err(e) => {
                return Err(e);
            },
            Ok(y) => y,
        };
        let ghost mid = self@;
        let x = match self.resolve(fuel) {
            Err(e) => {
                proof {
                    assert forall|o: Oracle<FFI>| #[trigger] agrees(o, self@.history) implies (
                        self@,
                        Err::<(), VMError>(e),
                    ) == binary_spec::<FFI, RT>(old(self)@, op@, fuel as nat, o) by {
                        lemma_agrees_earlier(o, mid.history, self@.history);
                    }
                }
                return Err(e);
            },
            Ok(x) => x,
        };
        let ghost last = self@;
        let r = match apply(op, x, y) {
            Err(e) => Err(e),
            Ok(v) => {
                self.push(Cell::Val(v));
                Ok(())
            },
        };
        proof {
            assert forall|o: Oracle<FFI>| #[trigger] agrees(o, self@.history) implies (self@, r)
                == binary_spec::<FFI, RT>(old(self)@, op@, fuel as nat, o) by {
                lemma_agrees_earlier(o, mid.history, last.history);
            }
        }
        r
    }

    /// A call of the function `name`; see [`call_spec`].
    #[verifier::loop_isolation(false)]
    fn call(&mut self, name: &String, fuel: u64) -> (r: Result<(), VMError>)
        requires
            old(self).wf(),
        ensures
            kept(*old(self), *final(self)),
            forall|o: Oracle<FFI>| #[trigger]
                agrees(o, final(self)@.history) ==> (final(self)@, r) == call_spec::<FFI, RT>(
                    old(self)@,
                    name@,
                    fuel as nat,
                    o,
                ),
        decreases fuel, 2nat,
    {
        let idx = match self.funcs.position(name) {
            None => {
                return Err(VMError::FFI(FFIError::FunctionNotFound));
            },
            Some(idx) => idx,
        };
        if self.locals.len() >= SCOPES_CAPACITY {
            return Err(VMError::Overflow);
        }
        self.enter();
        let ghost entered = self@;
        let ghost def = self@.funcs[idx as int].1;
        let n = self.funcs.entries[idx].1.params.len();
        assert(n == def.params.len());
        let mut i: usize = 0;
        while i < n
            invariant
                self.wf(),
                self.funcs == old(self).funcs,
                extends(old(self)@.history, self@.history),
                self@.locals.len() == old(self)@.locals.len() + 1,
                idx < self@.funcs.len(),
                def == self@.funcs[idx as int].1,
                n == def.params.len(),
                i <= n,
                forall|o: Oracle<FFI>| #[trigger]
                    agrees(o, self@.history) ==> bind_spec::<FFI, RT>(
                        entered,
                        def.params,
                        0,
                        fuel as nat,
                        o,
                    ) == bind_spec::<FFI, RT>(self@, def.params, i as nat, fuel as nat, o),
            decreases n - i,
        {
            let ghost before = self@;
            if self.stack.len() + 2 > STACK_CAPACITY {
                self.leave();
                return Err(VMError::Overflow);
            }
            self.push_binding(idx, i);
            let res = self.drive(fuel);
            proof {
                assert forall|o: Oracle<FFI>| #[trigger] agrees(o, self@.history) implies bind_spec::<
                    FFI,
                    RT,
                >(entered, def.params, 0, fuel as nat, o) == (match res {
                    Err(e) => (self@, res),
                    Ok(_) => bind_spec::<FFI, RT>(self@, def.params, (i + 1) as nat, fuel as nat, o),
                }) by {
                    lemma_agrees_earlier(o, before.history, self@.history);
                }
            }
            match res {
                Err(e) => {
                    self.leave();
                    return Err(e);
                },
                Ok(_) => {},
            }
            i += 1;
        }
        let ghost bound = self@;
        assert(def.body.len() == self.funcs.entries@[idx as int].1.stack@.len());
        let body_len = self.funcs.entries[idx].1.stack.len();
        if self.stack.len() + 1 + body_len > STACK_CAPACITY {
            self.leave();
            return Err(VMError::Overflow);
        }
        self.load_body(idx);
        let r = self.drive(fuel);
        let ghost ran = self@;
        self.leave();
        proof {
            assert forall|o: Oracle<FFI>| #[trigger] agrees(o, self@.history) implies (self@, r)
                == call_spec::<FFI, RT>(old(self)@, name@, fuel as nat, o) by {
                lemma_agrees_earlier(o, bound.history, ran.history);
            }
        }
        r
    }

    /// A `Then`; see [`then_spec`].
    fn then_op(&mut self, fuel: u64) -> (r: Result<(), VMError>)
        requires
            old(self).wf(),
        ensures
            kept(*old(self), *final(self)),
            forall|o: Oracle<FFI>| #[trigger]
                agrees(o, final(self)@.history) ==> (final(self)@, r) == then_spec::<FFI, RT>(
                    old(self)@,
                    fuel as nat,
                    o,
                ),
        decreases fuel, 2nat,
    {
        let (consequent, alternative) = match self.take_conditional() {
            None => {
                return Err(VMError::Malformed);
            },
            Some(parts) => parts,
        };
        match self.drive(fuel) {
            Err(e) => {
                return Err(e);
            },
            Ok(_) => {},
        }
        self.splice(consequent, alternative)
    }

    /// A foreign call; see [`ffi_spec`].
    fn ffi(&mut self, f: FFI, fuel: u64) -> (r: Result<(), VMError>)
        requires
            old(self).wf(),
        ensures
            kept(*old(self), *final(self)),
            forall|o: Oracle<FFI>| #[trigger]
                agrees(o, final(self)@.history) ==> (final(self)@, r) == ffi_spec::<FFI, RT>(
                    old(self)@,
                    f,
                    fuel as nat,
                    o,
                ),
        decreases fuel, 2nat,
    {
        let info = f.call_info();
        let mut params: Vec<Cell<FFI>> = Vec::new();
        let mut i: usize = 0;
        assert(cells_view(params@) =~= Seq::empty());
        while i < info.len()
            invariant
                kept(*old(self), *self),
                i <= info.len(),
                info@ == f.call_info_spec(),
                forall|o: Oracle<FFI>| #[trigger]
                    agrees(o, self@.history) ==> collect_spec::<FFI, RT>(
                        old(self)@,
                        info@,
                        0,
                        Seq::empty(),
                        fuel as nat,
                        o,
                    ) == collect_spec::<FFI, RT>(
                        self@,
                        info@,
                        i as nat,
                        cells_view(params@),
                        fuel as nat,
                        o,
                    ),
            decreases info.len() - i,
        {
            let ghost before = self@;
            let len = self.stack.len();
            if len == 0 {
                return Err(VMError::Underflow);
            }
            proof {
                lemma_cells_view(self.stack@, Seq::empty(), Cell::Null, 0);
            }
            match info[i] {
                Param::Normal => {
                    let res = self.drive(fuel);
                    let cell = match res {
                        Err(e) => Err(e),
                        Ok(_) => self.pop(),
                    };
                    match cell {
                        Err(e) => {
                            proof {
                                assert forall|o: Oracle<FFI>| #[trigger]
                                    agrees(o, self@.history) implies (
                                    self@,
                                    Err::<Seq<CellView<FFI>>, VMError>(e),
                                ) == collect_spec::<FFI, RT>(
                                    old(self)@,
                                    info@,
                                    0,
                                    Seq::empty(),
                                    fuel as nat,
                                    o,
                                ) by {
                                    lemma_agrees_earlier(o, before.history, self@.history);
                                }
                            }
                            return Err(e);
                        },
                        Ok(c) => {
                            proof {
                                lemma_cells_view(params@, Seq::empty(), c, 0);
                            }
                            params.push(c);
                        },
                    }
                    proof {
                        assert forall|o: Oracle<FFI>| #[trigger]
                            agrees(o, self@.history) implies collect_spec::<FFI, RT>(
                            old(self)@,
                            info@,
                            0,
                            Seq::empty(),
                            fuel as nat,
                            o,
                        ) == collect_spec::<FFI, RT>(
                            self@,
                            info@,
                            (i + 1) as nat,
                            cells_view(params@),
                            fuel as nat,
                            o,
                        ) by {
                            lemma_agrees_earlier(o, before.history, self@.history);
                        }
                    }
                },
                Param::DynPacked => {
                    let n = match packed_count(&self.stack[len - 1]) {
                        None => {
                            return Err(VMError::Malformed);
                        },
                        Some(n) => n,
                    };
                    if n > len {
                        return Err(VMError::Malformed);
                    }
                    let mut top = self.take_top(n);
                    proof {
                        lemma_cells_view(params@, top@, Cell::Null, 0);
                    }
                    params.append(&mut top);
                },
            }
            i += 1;
        }
        let ghost collected = self@;
        let res = f.dispatch(&mut self.runtime, &params);
        let ghost answer = answer_view(res);
        proof {
            self.history@ = self.history@.push(
                ForeignCall { op: f, params: cells_view(params@), answer },
            );
        }
        let r = match res {
            Err(e) => Err(e),
            Ok(cell) => {
                if self.return_stack.len() >= RETURN_STACK_CAPACITY {
                    Err(VMError::Overflow)
                } else {
                    self.push_return(cell);
                    Ok(())
                }
            },
        };
        proof {
            assert forall|o: Oracle<FFI>| #[trigger] agrees(o, self@.history) implies (self@, r)
                == ffi_spec::<FFI, RT>(old(self)@, f, fuel as nat, o) by {
                assert(self@.history[collected.history.len() as int].answer == answer);
                lemma_agrees_earlier(o, collected.history, self@.history);
                assert(o(collected.history.len()) == answer);
            }
        }
        r
    }

    /// Takes the text of at most `capacity` bytes that lies on the stack as a
    /// packed string; see [`take_text`].
    fn take_text(&mut self, capacity: usize) -> (r: Option<String>)
        requires
            old(self).wf(),
        ensures
            final(self).wf(),
            final(self).runtime == old(self).runtime,
            final(self).funcs == old(self).funcs,
            match take_text(old(self)@.stack, capacity as int) {
                None => r is None && final(self)@ == old(self)@,
                Some((text, rest)) => r is Some && r->Some_0@ == text && final(self)@ == (VMState {
                    stack: rest,
                    ..old(self)@
                }),
            },
    {
        let len = self.stack.len();
        if len == 0 {
            return None;
        }
        proof {
            lemma_cells_view(self.stack@, Seq::empty(), Cell::Null, 0);
        }
        let n = match packed_count(&self.stack[len - 1]) {
            None => {
                return None;
            },
            Some(n) => n,
        };
        if n > len {
            return None;
        }
        let top = self.take_top(n);
        let text = unpack_str(top.as_slice(), capacity);
        if text.is_none() {
            self.put_top(top);
            proof {
                let v = old(self)@.stack;
                assert(v.take(v.len() - n) + v.skip(v.len() - n) =~= v);
            }
        }
        text
    }

    /// Takes the name of a dynamic call off the stack; see [`take_name`].
    fn take_name(&mut self) -> (r: Option<String>)
        requires
            old(self).wf(),
        ensures
            final(self).wf(),
            final(self).runtime == old(self).runtime,
            final(self).funcs == old(self).funcs,
            match take_name(old(self)@.stack) {
                None => r is None && final(self)@ == old(self)@,
                Some((name, rest)) => r is Some && r->Some_0@ == name && final(self)@ == (VMState {
                    stack: rest,
                    ..old(self)@
                }),
            },
    {
        self.take_text(NAME_CAPACITY)
    }

    /// The evaluation of one operation; see [`eval_spec`].
    fn eval(&mut self, op: Op<FFI>, fuel: u64) -> (r: Result<(), VMError>)
        requires
            old(self).wf(),
        ensures
            kept(*old(self), *final(self)),
            forall|o: Oracle<FFI>| #[trigger]
                agrees(o, final(self)@.history) ==> (final(self)@, r) == eval_spec::<FFI, RT>(
                    old(self)@,
                    op@,
                    fuel as nat,
                    o,
                ),
        decreases fuel, 3nat,
    {
        match op {
            Op::ExitFn => {
                if self.return_addr.is_some() {
                    self.exit_fn();
                    Ok(())
                } else {
                    Err(VMError::Malformed)
                }
            },
            Op::PopRet => match self.pop_return() {
                Err(e) => Err(e),
                Ok(_) => Ok(()),
            },
            Op::Return => match self.drive(fuel) {
                Err(e) => Err(e),
                Ok(_) => match self.pop() {
                    Err(e) => Err(e),
                    Ok(c) => {
                        if self.return_stack.len() >= RETURN_STACK_CAPACITY {
                            Err(VMError::Overflow)
                        } else {
                            self.push_return(c);
                            Ok(())
                        }
                    },
                },
            },
            Op::Nruter => match self.pop_return() {
                Err(e) => Err(e),
                Ok(c) => {
                    if self.stack.len() >= STACK_CAPACITY {
                        Err(VMError::Overflow)
                    } else {
                        self.push(c);
                        Ok(())
                    }
                },
            },
            Op::CallDyn => match self.take_name() {
                None => Err(VMError::Malformed),
                Some(name) => self.call(&name, fuel),
            },
            Op::Call(name) => self.call(&name, fuel),
            Op::If => Err(VMError::Malformed),
            Op::Else => Err(VMError::Malformed),
            Op::Then => self.then_op(fuel),
            Op::GetVar(name) => match self.read_var(&name) {
                Some(Some(v)) => {
                    if self.stack.len() >= STACK_CAPACITY {
                        Err(VMError::Overflow)
                    } else {
                        self.push(Cell::Val(v));
                        Ok(())
                    }
                },
                _ => Err(VMError::VarNotFound),
            },
            Op::SetVar(name) => match self.resolve(fuel) {
                Err(e) => Err(e),
                Ok(v) => self.try_assign(name, v),
            },
            Op::DeclVar(name) => self.try_declare(name),
            Op::FFI(f) => self.ffi(f, fuel),
            _ => self.binary_op(&op, fuel),
        }
    }
}

/// The function table after `def` was put under `name`; `None` when the
/// name is new and the table is full.
pub open spec fn funcs_insert<FFI>(
    funcs: crate::forth::store::Funcs<FFI>,
    name: Name,
    def: crate::forth::store::FuncDefView<FFI>,
) -> Option<crate::forth::store::Funcs<FFI>> {
    match find_key(funcs, name) {
        Some(i) => Some(funcs.update(i, (name, def))),
        None => if funcs.len() < FUNCS_CAPACITY {
            Some(funcs.push((name, def)))
        } else {
            None
        },
    }
}

impl<FFI: FFIOps<RT>, RT> VM<FFI, RT> {
    /// Runs the driver: while an operation lies on top of the data stack it
    /// is taken off and evaluated. Success means that no operation lies on
    /// top any more; that is also the case when none did to begin with.
    ///
    /// The machine stays within its capacities whatever happens, and closes
    /// every scope that a call opened. For each foreign call the history
    /// tells what was handed to the host and what it answered; given those
    /// answers, the final state and the result are those of [`run_spec`].
    pub fn run(&mut self) -> (r: Result<(), VMError>)
        requires
            old(self).wf(),
        ensures
            kept(*old(self), *final(self)),
            r is Ok ==> !top_is_op(final(self)@.stack),
            forall|o: Oracle<FFI>| #[trigger]
                agrees(o, final(self)@.history) ==> (final(self)@, r) == run_spec::<FFI, RT>(
                    old(self)@,
                    STEP_BUDGET as nat,
                    o,
                ),
    {
        self.drive(STEP_BUDGET)
    }

    /// Calls the function `name` with the arguments that lie on the data
    /// stack. Fails with `FunctionNotFound` when there is no such function.
    ///
    /// As many scopes are open afterwards as were before, also after an
    /// error. Given the answers of the host, the final state and the result
    /// are those of [`call_spec`].
    pub fn call_fn(&mut self, name: &str) -> (r: Result<(), VMError>)
        requires
            old(self).wf(),
        ensures
            kept(*old(self), *final(self)),
            find_key(old(self)@.funcs, name@) is None ==> r == Err::<(), VMError>(
                VMError::FFI(FFIError::FunctionNotFound),
            ) && final(self)@ == old(self)@,
            forall|o: Oracle<FFI>| #[trigger]
                agrees(o, final(self)@.history) ==> (final(self)@, r) == call_spec::<FFI, RT>(
                    old(self)@,
                    name@,
                    STEP_BUDGET as nat,
                    o,
                ),
    {
        let key = name.to_owned();
        let r = self.call(&key, STEP_BUDGET);
        proof {
            if find_key(old(self)@.funcs, name@) is None {
                crate::forth::laws::lemma_call_unknown::<FFI, RT>(
                    old(self)@,
                    name@,
                    STEP_BUDGET as nat,
                    self@.history,
                );
                let o = crate::forth::laws::oracle_of(self@.history);
                assert(agrees(o, self@.history));
            }
        }
        r
    }

    /// Adds the function `name`, in place of one of that name if there is
    /// one. There must be room for it, and it must be within the capacities
    /// of a function.
    pub fn add_func(&mut self, name: &str, params: &[String], stack: &[Cell<FFI>])
        requires
            old(self).wf(),
            params@.len() <= PARAMS_CAPACITY,
            stack@.len() <= STACK_CAPACITY,
            funcs_insert(
                old(self)@.funcs,
                name@,
                crate::forth::store::FuncDefView {
                    params: crate::forth::cell::names_view(params@),
                    body: cells_view(stack@),
                },
            ) is Some,
        ensures
            final(self).wf(),
            final(self).runtime == old(self).runtime,
            Some(final(self)@) == (match funcs_insert(
                old(self)@.funcs,
                name@,
                crate::forth::store::FuncDefView {
                    params: crate::forth::cell::names_view(params@),
                    body: cells_view(stack@),
                },
            ) {
                Some(funcs) => Some(VMState { funcs, ..old(self)@ }),
                None => None,
            }),
    {
        let mut own_params: Vec<String> = Vec::new();
        let mut i: usize = 0;
        while i < params.len()
            invariant
                i <= params.len(),
                own_params@ == params@.take(i as int),
            decreases params.len() - i,
        {
            own_params.push(params[i].clone());
            assert(params@.take(i as int + 1) =~= params@.take(i as int).push(params@[i as int]));
            i += 1;
        }
        assert(params@.take(params@.len() as int) =~= params@);
        let mut own_stack: Vec<Cell<FFI>> = Vec::new();
        let mut j: usize = 0;
        while j < stack.len()
            invariant
                j <= stack.len(),
                own_stack@ == stack@.take(j as int),
            decreases stack.len() - j,
        {
            own_stack.push(stack[j].clone());
            assert(stack@.take(j as int + 1) =~= stack@.take(j as int).push(stack@[j as int]));
            j += 1;
        }
        assert(stack@.take(stack@.len() as int) =~= stack@);
        let def = FuncDef::new(own_params, own_stack);
        let _ = self.funcs.insert(name.to_owned(), def);
    }

    /// Declares `name`, without a value, in the current scope, which must
    /// have room for it unless it holds the name already.
    pub fn decl_var(&mut self, name: &str)
        requires
            old(self).wf(),
            declare(old(self)@, name@).1 is Ok,
        ensures
            final(self).wf(),
            final(self).runtime == old(self).runtime,
            final(self)@ == declare(old(self)@, name@).0,
    {
        let _ = self.try_declare(name.to_owned());
    }

    /// Gives `name` the value `val`: in the innermost scope if that declares
    /// the name, else among the globals, which must have room for a new name.
    pub fn set_var(&mut self, name: &str, val: CellData)
        requires
            old(self).wf(),
            assign(old(self)@, name@, val).1 is Ok,
        ensures
            final(self).wf(),
            final(self).runtime == old(self).runtime,
            final(self)@ == assign(old(self)@, name@, val).0,
    {
        let _ = self.try_assign(name.to_owned(), val);
    }

    /// As [`VM::set_var`], but fails with `Overflow`, and changes nothing,
    /// where the globals have no room for a new name.
    pub fn try_set_var(&mut self, name: &str, val: CellData) -> (r: Result<(), VMError>)
        requires
            old(self).wf(),
        ensures
            final(self).wf(),
            final(self).runtime == old(self).runtime,
            final(self).funcs == old(self).funcs,
            (final(self)@, r) == assign(old(self)@, name@, val),
    {
        self.try_assign(name.to_owned(), val)
    }

    /// The value of `name`: the innermost scope is asked first, then the
    /// globals. `Ok(None)` for a name that is declared and has no value;
    /// `VarNotFound` for one that is not declared.
    pub fn get_var(&self, name: &str) -> (r: Result<Option<CellData>, VMError>)
        ensures
            r == (match lookup(self@, name@) {
                Some(v) => Ok(v),
                None => Err(VMError::VarNotFound),
            }),
    {
        let key = name.to_owned();
        match self.read_var(&key) {
            Some(v) => Ok(v),
            None => Err(VMError::VarNotFound),
        }
    }

    /// Puts `s` on the data stack as a packed string. The string must be
    /// short enough to pack, and the stack must have room for it.
    pub fn push_str(&mut self, s: &str)
        requires
            old(self).wf(),
            s@.len() >= 0,
            vstd::utf8::encode_utf8(s@).len() <= crate::forth::util::MAX_PACKED_LEN,
            old(self)@.stack.len() + words_needed(vstd::utf8::encode_utf8(s@).len() as int) + 1
                <= STACK_CAPACITY,
        ensures
            final(self).wf(),
            final(self).runtime == old(self).runtime,
            final(self)@ == (VMState {
                stack: old(self)@.stack + crate::forth::util::pack_spec::<FFI>(
                    vstd::utf8::encode_utf8(s@),
                ),
                ..old(self)@
            }),
    {
        let cells = crate::forth::util::pack::<FFI>(s.as_bytes());
        assert(cells_view(cells@).len() == cells@.len());
        self.put_top(cells);
    }

    /// Takes the packed string that lies on the data stack, whatever its
    /// length. `None`, and nothing changed, when no packed string of valid
    /// UTF-8 lies on top.
    pub fn get_str(&mut self) -> (r: Option<String>)
        requires
            old(self).wf(),
        ensures
            final(self).wf(),
            final(self).runtime == old(self).runtime,
            match take_text(old(self)@.stack, crate::forth::util::MAX_PACKED_LEN as int) {
                None => r is None && final(self)@ == old(self)@,
                Some((text, rest)) => r is Some && r->Some_0@ == text && final(self)@ == (VMState {
                    stack: rest,
                    ..old(self)@
                }),
            },
    {
        self.take_text(crate::forth::util::MAX_PACKED_LEN)
    }
}

impl<FFI, RT> VM<FFI, RT> {
    /// The runtime, to change it.
    pub fn runtime_mut(&mut self) -> (r: &mut RT)
        ensures
            *r == old(self).runtime,
            *final(self) == (VM { runtime: *final(r), ..*old(self) }),
    {
        &mut self.runtime
    }
}

} // verus!
