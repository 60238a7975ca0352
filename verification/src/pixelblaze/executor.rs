//! The executor of the rendering cycle: `beforeRender(delta)` once a frame,
//! then `render(i)` for every pixel.

use crate::forth::cell::{cells_view, Cell, CellView, FFIOps, Name, Op, OpView, VMError};
use crate::forth::cell_data::{CellData, INT_MAX};
use crate::forth::laws::{
    host_present, lemma_call_present, lemma_run_present, oracle_of, present,
};
use crate::forth::semantics::{
    agrees, allowed, assign, call_spec, lemma_agrees_earlier, push_checked, run_spec, ForeignCall, Oracle, Step,
    VMState,
};
use crate::forth::store::{VarStorage, STACK_CAPACITY};
use crate::forth::util::{pack, pack_spec, MAX_PACKED_LEN};
use crate::forth::vm::{kept, STEP_BUDGET, VM};
use crate::pixelblaze::ffi::PixelBlazeFFI;
use crate::pixelblaze::traits::PixelBlazeRuntime;
use vstd::prelude::*;

verus! {

/// What the executor asks of the LEDs of the host.
pub enum HostCall {
    /// `led_begin`.
    Begin,
    /// `set_led_idx` for the pixel.
    Index(usize),
    /// `led_commit`.
    Commit,
}

/// A call that the executor made to the host, with the number of foreign
/// calls that the machine had made before it: that number says where the
/// call stands among the calls of the program.
pub struct HostEvent {
    pub call: HostCall,
    pub at: nat,
}

/// A machine with the number of pixels it renders and the time of the last
/// frame. The machine can be taken out and another put in.
pub struct Executor<FFI, RT> {
    pub vm: Option<VM<FFI, RT>>,
    pub pixel_count: usize,
    pub last_millis: u32,
    /// The calls made to the LEDs of the host so far, for specifications.
    pub host: Ghost<Seq<HostEvent>>,
}

/// The time since the last frame as a number: the difference of the two
/// clock readings modulo 2^32, and no more than the largest integer that is
/// a number.
pub open spec fn clamp_delta(now: u32, last: u32) -> CellData {
    let d = if now >= last {
        now - last
    } else {
        now - last + 0x1_0000_0000
    };
    let clamped = if d > INT_MAX {
        INT_MAX as int
    } else {
        d
    };
    CellData { bits: (clamped * 0x1_0000) as i32 }
}

/// A call of `name` with one argument whose result is thrown away: the
/// argument is pushed, the function called, and the top cell taken off.
pub open spec fn invoke_spec<FFI: FFIOps<RT>, RT>(
    s: VMState<FFI>,
    name: Name,
    arg: CellData,
    o: Oracle<FFI>,
) -> Step<FFI> {
    let (s1, r1) = push_checked(s, CellView::Val(arg));
    match r1 {
        Err(e) => (s1, Err(e)),
        Ok(_) => {
            let (s2, r2) = call_spec::<FFI, RT>(s1, name, STEP_BUDGET as nat, o);
            match r2 {
                Err(e) => (s2, Err(e)),
                Ok(_) => if s2.stack.len() == 0 {
                    (s2, Err(VMError::Underflow))
                } else {
                    (VMState { stack: s2.stack.drop_last(), ..s2 }, Ok(()))
                },
            }
        },
    }
}

/// The calls of `render` for the pixels from `i` up to `n`, in order. A
/// pixel whose index is no number ends them with `Overflow`.
pub open spec fn pixels_spec<FFI: FFIOps<RT>, RT>(
    s: VMState<FFI>,
    i: nat,
    n: nat,
    o: Oracle<FFI>,
) -> Step<FFI>
    decreases n - i,
{
    if i >= n {
        (s, Ok(()))
    } else if i > INT_MAX {
        (s, Err(VMError::Overflow))
    } else {
        let (s1, r) = invoke_spec::<FFI, RT>(
            s,
            "render"@,
            CellData { bits: (i * 0x1_0000) as i32 },
            o,
        );
        match r {
            Err(e) => (s1, Err(e)),
            Ok(_) => pixels_spec::<FFI, RT>(s1, i + 1, n, o),
        }
    }
}

/// One frame: `beforeRender` with the time since the last frame, then
/// `render` for every pixel. What the host's LEDs are asked on the way is
/// [`frame_calls`].
pub open spec fn frame_spec<FFI: FFIOps<RT>, RT>(
    s: VMState<FFI>,
    delta: CellData,
    n: nat,
    o: Oracle<FFI>,
) -> Step<FFI> {
    let (s1, r) = invoke_spec::<FFI, RT>(s, "beforeRender"@, delta, o);
    match r {
        Err(e) => (s1, Err(e)),
        Ok(_) => pixels_spec::<FFI, RT>(s1, 0, n, o),
    }
}

/// The calls to the host that go with [`pixels_spec`]: before each call of
/// `render` comes `set_led_idx` for its pixel. An error ends the calls.
pub open spec fn pixel_calls<FFI: FFIOps<RT>, RT>(
    s: VMState<FFI>,
    i: nat,
    n: nat,
    o: Oracle<FFI>,
) -> Seq<HostEvent>
    decreases n - i,
{
    if i >= n || i > INT_MAX {
        Seq::empty()
    } else {
        let (s1, r) = invoke_spec::<FFI, RT>(
            s,
            "render"@,
            CellData { bits: (i * 0x1_0000) as i32 },
            o,
        );
        seq![HostEvent { call: HostCall::Index(i as usize), at: s.history.len() }] + (match r {
            Err(_) => Seq::empty(),
            Ok(_) => pixel_calls::<FFI, RT>(s1, i + 1, n, o),
        })
    }
}

/// The call that ends a frame: `led_commit` after the last pixel, and none
/// after an error.
pub open spec fn commit_call<FFI>(step: Step<FFI>) -> Seq<HostEvent> {
    match step.1 {
        Ok(_) => seq![HostEvent { call: HostCall::Commit, at: step.0.history.len() }],
        Err(_) => Seq::empty(),
    }
}

/// The calls to the host that go with [`frame_spec`]: none if
/// `beforeRender` fails; else `led_begin` once after it, then for every
/// pixel in order `set_led_idx` before its `render`, then `led_commit` once
/// if every pixel was rendered.
pub open spec fn frame_calls<FFI: FFIOps<RT>, RT>(
    s: VMState<FFI>,
    delta: CellData,
    n: nat,
    o: Oracle<FFI>,
) -> Seq<HostEvent> {
    let (s1, r) = invoke_spec::<FFI, RT>(s, "beforeRender"@, delta, o);
    match r {
        Err(_) => Seq::empty(),
        Ok(_) => seq![HostEvent { call: HostCall::Begin, at: s1.history.len() }] + pixel_calls::<
            FFI,
            RT,
        >(s1, 0, n, o) + commit_call(pixels_spec::<FFI, RT>(s1, 0, n, o)),
    }
}

/// In a run of pixels that succeeds, the host is asked once for each pixel,
/// in order, to select it.
pub proof fn lemma_pixel_calls<FFI: FFIOps<RT>, RT>(s: VMState<FFI>, i: nat, n: nat, o: Oracle<FFI>)
    requires
        i <= n,
        pixels_spec::<FFI, RT>(s, i, n, o).1 is Ok,
    ensures
        pixel_calls::<FFI, RT>(s, i, n, o).len() == n - i,
        forall|k: int|
            0 <= k < n - i ==> (#[trigger] pixel_calls::<FFI, RT>(s, i, n, o)[k]).call
                == HostCall::Index((i + k) as usize),
    decreases n - i,
{
    if i < n {
        let s1 = invoke_spec::<FFI, RT>(
            s,
            "render"@,
            CellData { bits: (i * 0x1_0000) as i32 },
            o,
        ).0;
        lemma_pixel_calls::<FFI, RT>(s1, i + 1, n, o);
        let rest = pixel_calls::<FFI, RT>(s1, i + 1, n, o);
        let all = pixel_calls::<FFI, RT>(s, i, n, o);
        assert forall|k: int| 0 <= k < n - i implies (#[trigger] all[k]).call == HostCall::Index(
            (i + k) as usize,
        ) by {
            if k > 0 {
                assert(all[k] == rest[k - 1]);
            }
        }
    }
}

/// The bracket of a frame: in a frame that succeeds the host's LEDs are
/// asked to begin, then to select each pixel from the first to the last,
/// then to commit, and nothing else.
pub proof fn lemma_frame_calls<FFI: FFIOps<RT>, RT>(
    s: VMState<FFI>,
    delta: CellData,
    n: nat,
    o: Oracle<FFI>,
)
    requires
        frame_spec::<FFI, RT>(s, delta, n, o).1 is Ok,
    ensures
        frame_calls::<FFI, RT>(s, delta, n, o).len() == n + 2,
        frame_calls::<FFI, RT>(s, delta, n, o)[0].call == HostCall::Begin,
        forall|k: int|
            0 <= k < n ==> (#[trigger] frame_calls::<FFI, RT>(s, delta, n, o)[k + 1]).call
                == HostCall::Index(k as usize),
        frame_calls::<FFI, RT>(s, delta, n, o)[n as int + 1].call == HostCall::Commit,
{
    let s1 = invoke_spec::<FFI, RT>(s, "beforeRender"@, delta, o).0;
    lemma_pixel_calls::<FFI, RT>(s1, 0, n, o);
    let pixels = pixel_calls::<FFI, RT>(s1, 0, n, o);
    let all = frame_calls::<FFI, RT>(s, delta, n, o);
    assert forall|k: int| 0 <= k < n implies (#[trigger] all[k + 1]).call == HostCall::Index(
        k as usize,
    ) by {
        assert(all[k + 1] == pixels[k]);
    }
}

/// The state with a message for the log on its stack: `PopRet`, the packed
/// text, and the logging operation on top. `Overflow` when the text is too
/// long to pack or the stack has no room.
pub open spec fn announce_spec(s: VMState<PixelBlazeFFI>, text: Seq<u8>) -> Step<PixelBlazeFFI> {
    let cells = seq![CellView::Op(OpView::PopRet)] + pack_spec::<PixelBlazeFFI>(text) + seq![
        CellView::Op(OpView::FFI(PixelBlazeFFI::ConsoleLog)),
    ];
    if text.len() > MAX_PACKED_LEN || s.stack.len() + cells.len() > STACK_CAPACITY {
        (s, Err(VMError::Overflow))
    } else {
        (VMState { stack: s.stack + cells, ..s }, Ok(()))
    }
}

/// The start of a program: a greeting is put on the stack, the global
/// `pixelCount` is set, and the driver runs what the program holds at its
/// top level. `Overflow` when the pixel count is no number.
pub open spec fn start_spec<RT: PixelBlazeRuntime>(
    s: VMState<PixelBlazeFFI>,
    greeting: Seq<u8>,
    pixel_count: usize,
    o: Oracle<PixelBlazeFFI>,
) -> Step<PixelBlazeFFI> {
    if pixel_count > INT_MAX {
        (s, Err(VMError::Overflow))
    } else {
        let (s1, r1) = announce_spec(s, greeting);
        match r1 {
            Err(e) => (s1, Err(e)),
            Ok(_) => {
                let (s2, r2) = assign(
                    s1,
                    "pixelCount"@,
                    CellData { bits: (pixel_count * 0x1_0000) as i32 },
                );
                match r2 {
                    Err(e) => (s2, Err(e)),
                    Ok(_) => run_spec::<PixelBlazeFFI, RT>(s2, STEP_BUDGET as nat, o),
                }
            },
        }
    }
}

/// The end of a program: a farewell is put on the stack and the driver runs.
pub open spec fn exit_spec<RT: PixelBlazeRuntime>(
    s: VMState<PixelBlazeFFI>,
    farewell: Seq<u8>,
    o: Oracle<PixelBlazeFFI>,
) -> Step<PixelBlazeFFI> {
    let (s1, r1) = announce_spec(s, farewell);
    match r1 {
        Err(e) => (s1, Err(e)),
        Ok(_) => run_spec::<PixelBlazeFFI, RT>(s1, STEP_BUDGET as nat, o),
    }
}

/// No operation of the LED flavor answers `Vanished`: the oracle that
/// repeats a history of allowed answers never answers so.
pub proof fn lemma_leds_present<RT: PixelBlazeRuntime>(history: Seq<ForeignCall<PixelBlazeFFI>>)
    requires
        allowed::<PixelBlazeFFI, RT>(history),
    ensures
        agrees(oracle_of(history), history),
        host_present(oracle_of(history)),
{
    let o = oracle_of(history);
    assert forall|n: nat| #[trigger]
        o(n) != Err::<CellView<PixelBlazeFFI>, VMError>(VMError::Vanished) by {
        if n < history.len() {
            let call = history[n as int];
            assert(<PixelBlazeFFI as FFIOps<RT>>::allows(&call.op, call.params, call.answer));
        }
    }
}

/// The time since the last frame; see [`clamp_delta`].
pub fn delta_since(now: u32, last: u32) -> (r: CellData)
    ensures
        r == clamp_delta(now, last),
{
    let d = now.wrapping_sub(last);
    let clamped: u32 = if d > 32767 {
        32767
    } else {
        d
    };
    CellData::from_num(clamped as i32)
}

/// Puts a message for the log on the stack; see [`announce_spec`].
pub fn announce<RT: PixelBlazeRuntime>(vm: &mut VM<PixelBlazeFFI, RT>, text: &str) -> (r: Result<
    (),
    VMError,
>)
    requires
        old(vm).wf(),
    ensures
        final(vm).wf(),
        final(vm).runtime == old(vm).runtime,
        final(vm).funcs == old(vm).funcs,
        (final(vm)@, r) == announce_spec(old(vm)@, vstd::utf8::encode_utf8(text@)),
{
    let bytes = text.as_bytes();
    if bytes.len() > MAX_PACKED_LEN {
        return Err(VMError::Overflow);
    }
    let packed = pack::<PixelBlazeFFI>(bytes);
    assert(cells_view(packed@).len() == packed@.len());
    assert(cells_view(vm.stack@).len() == vm.stack@.len());
    if packed.len() + 2 > STACK_CAPACITY - vm.stack.len() {
        return Err(VMError::Overflow);
    }
    let ghost before = vm@.stack;
    vm.push(Cell::Op(Op::PopRet));
    let mut i: usize = 0;
    while i < packed.len()
        invariant
            vm.wf(),
            vm.runtime == old(vm).runtime,
            vm.funcs == old(vm).funcs,
            i <= packed.len(),
            before.len() + 2 + packed.len() <= STACK_CAPACITY,
            cells_view(packed@).len() == packed@.len(),
            vm@ == (VMState {
                stack: before.push(CellView::Op(OpView::PopRet)) + cells_view(packed@).take(
                    i as int,
                ),
                ..old(vm)@
            }),
        decreases packed.len() - i,
    {
        let c = packed[i].clone();
        let ghost so_far = vm@.stack;
        vm.push(c);
        proof {
            assert(cells_view(packed@)[i as int] == c@);
            assert(so_far.push(c@) =~= before.push(CellView::Op(OpView::PopRet)) + cells_view(
                packed@,
            ).take(i as int + 1));
        }
        i += 1;
    }
    vm.push(Cell::Op(Op::FFI(PixelBlazeFFI::ConsoleLog)));
    proof {
        let whole = cells_view(packed@);
        assert(whole.take(whole.len() as int) =~= whole);
        assert(vm@.stack =~= before + (seq![CellView::Op(OpView::PopRet)] + whole + seq![
            CellView::Op(OpView::FFI(PixelBlazeFFI::ConsoleLog)),
        ]));
    }
    Ok(())
}

/// Calls `name` with one argument and throws the result away; see
/// [`invoke_spec`].
pub fn invoke<RT: PixelBlazeRuntime>(
    vm: &mut VM<PixelBlazeFFI, RT>,
    name: &str,
    arg: CellData,
) -> (r: Result<(), VMError>)
    requires
        old(vm).wf(),
    ensures
        kept(*old(vm), *final(vm)),
        present(r),
        forall|o: Oracle<PixelBlazeFFI>| #[trigger]
            agrees(o, final(vm)@.history) ==> (final(vm)@, r) == invoke_spec::<PixelBlazeFFI, RT>(
                old(vm)@,
                name@,
                arg,
                o,
            ),
{
    assert(cells_view(vm.stack@).len() == vm.stack@.len());
    if vm.stack.len() >= STACK_CAPACITY {
        return Err(VMError::Overflow);
    }
    vm.push(Cell::Val(arg));
    let ghost pushed = vm@;
    let called = vm.call_fn(name);
    proof {
        lemma_leds_present::<RT>(vm@.history);
        lemma_call_present::<PixelBlazeFFI, RT>(
            pushed,
            name@,
            STEP_BUDGET as nat,
            oracle_of(vm@.history),
        );
    }
    match called {
        Err(e) => {
            return Err(e);
        },
        Ok(_) => {},
    }
    match vm.pop() {
        Err(e) => Err(e),
        Ok(_) => Ok(()),
    }
}

/// Whether the machine ends in state `after` with result `r` when it is in
/// state `before` and is told to say farewell and run what is left:
/// [`exit_spec`], for the answers that the foreign calls got.
pub open spec fn ends_as<RT: PixelBlazeRuntime>(
    before: VMState<PixelBlazeFFI>,
    after: VMState<PixelBlazeFFI>,
    r: Result<(), VMError>,
) -> bool {
    forall|o: Oracle<PixelBlazeFFI>| #[trigger]
        agrees(o, after.history) ==> (after, r) == exit_spec::<RT>(
            before,
            vstd::utf8::encode_utf8("*** DÖNE! ***"@),
            o,
        )
}

impl<RT: PixelBlazeRuntime> Executor<PixelBlazeFFI, RT> {
    /// The machine, if there is one, is well formed.
    pub open spec fn wf(&self) -> bool {
        self.vm matches Some(vm) ==> vm.wf()
    }

    /// An executor for `vm` and `pixel_count` pixels. The time of the last
    /// frame is what the runtime's clock says now.
    pub fn new(vm: VM<PixelBlazeFFI, RT>, pixel_count: usize) -> (r: Self)
        requires
            vm.wf(),
        ensures
            r.wf(),
            r.pixel_count == pixel_count,
            r.vm matches Some(inner) && inner@ == vm@,
            r.host@ == Seq::<HostEvent>::empty(),
    {
        let mut vm = vm;
        let last_millis = vm.runtime.time_millis();
        Executor { vm: Some(vm), pixel_count, last_millis, host: Ghost(Seq::empty()) }
    }

    /// Starts the program: greets on the log, sets the global `pixelCount`
    /// and runs the program's top level. `Vanished` without a machine, and
    /// only then. The time of the last frame is read anew on success, and
    /// stays on an error.
    pub fn start(&mut self) -> (r: Result<(), VMError>)
        requires
            old(self).wf(),
        ensures
            final(self).wf(),
            final(self).pixel_count == old(self).pixel_count,
            final(self).host == old(self).host,
            r is Err ==> final(self).last_millis == old(self).last_millis,
            r == Err::<(), VMError>(VMError::Vanished) <==> old(self).vm is None,
            match old(self).vm {
                None => r == Err::<(), VMError>(VMError::Vanished) && final(self).vm is None,
                Some(before) => final(self).vm matches Some(after) && after.funcs == before.funcs
                    && forall|o: Oracle<PixelBlazeFFI>| #[trigger]
                    agrees(o, after@.history) ==> (after@, r) == start_spec::<RT>(
                        before@,
                        vstd::utf8::encode_utf8("*** VM START ***\n"@),
                        old(self).pixel_count,
                        o,
                    ),
            },
    {
        let mut vm = match self.vm.take() {
            None => {
                return Err(VMError::Vanished);
            },
            Some(vm) => vm,
        };
        let r = Self::start_vm(&mut vm, self.pixel_count);
        if r.is_ok() {
            self.last_millis = vm.runtime.time_millis();
        }
        self.vm = Some(vm);
        r
    }

    /// The start, on the machine itself.
    fn start_vm(vm: &mut VM<PixelBlazeFFI, RT>, pixel_count: usize) -> (r: Result<(), VMError>)
        requires
            old(vm).wf(),
        ensures
            final(vm).wf(),
            final(vm).funcs == old(vm).funcs,
            present(r),
            forall|o: Oracle<PixelBlazeFFI>| #[trigger]
                agrees(o, final(vm)@.history) ==> (final(vm)@, r) == start_spec::<RT>(
                    old(vm)@,
                    vstd::utf8::encode_utf8("*** VM START ***\n"@),
                    pixel_count,
                    o,
                ),
    {
        if pixel_count > 32767 {
            return Err(VMError::Overflow);
        }
        let count = CellData::from_num(pixel_count as i32);
        match announce(vm, "*** VM START ***\n") {
            Err(e) => {
                return Err(e);
            },
            Ok(_) => {},
        }
        match vm.try_set_var("pixelCount", count) {
            Err(e) => {
                return Err(e);
            },
            Ok(_) => {},
        }
        Self::run_vm(vm)
    }

    /// The driver, on a machine of the LED flavor: it does not end in
    /// `Vanished`, since no operation of the flavor answers so.
    fn run_vm(vm: &mut VM<PixelBlazeFFI, RT>) -> (r: Result<(), VMError>)
        requires
            old(vm).wf(),
        ensures
            kept(*old(vm), *final(vm)),
            present(r),
            forall|o: Oracle<PixelBlazeFFI>| #[trigger]
                agrees(o, final(vm)@.history) ==> (final(vm)@, r) == run_spec::<PixelBlazeFFI, RT>(
                    old(vm)@,
                    STEP_BUDGET as nat,
                    o,
                ),
    {
        let r = vm.run();
        proof {
            lemma_leds_present::<RT>(vm@.history);
            lemma_run_present::<PixelBlazeFFI, RT>(
                old(vm)@,
                STEP_BUDGET as nat,
                oracle_of(vm@.history),
            );
        }
        r
    }

    /// Ends the program: says farewell on the log. `Vanished` without a
    /// machine.
    pub fn exit(self) -> (r: Result<(), VMError>)
        requires
            self.wf(),
        ensures
            r == Err::<(), VMError>(VMError::Vanished) <==> self.vm is None,
            match self.vm {
                None => r == Err::<(), VMError>(VMError::Vanished),
                Some(before) => exists|after: VMState<PixelBlazeFFI>| #[trigger]
                    ends_as::<RT>(before@, after, r),
            },
    {
        let mut this = self;
        let mut vm = match this.vm.take() {
            None => {
                return Err(VMError::Vanished);
            },
            Some(vm) => vm,
        };
        let r = Self::exit_vm(&mut vm);
        assert(ends_as::<RT>(self.vm->Some_0@, vm@, r));
        r
    }

    /// The end, on the machine itself.
    pub fn exit_vm(vm: &mut VM<PixelBlazeFFI, RT>) -> (r: Result<(), VMError>)
        requires
            old(vm).wf(),
        ensures
            final(vm).wf(),
            present(r),
            forall|o: Oracle<PixelBlazeFFI>| #[trigger]
                agrees(o, final(vm)@.history) ==> (final(vm)@, r) == exit_spec::<RT>(
                    old(vm)@,
                    vstd::utf8::encode_utf8("*** DÖNE! ***"@),
                    o,
                ),
    {
        match announce(vm, "*** DÖNE! ***") {
            Err(e) => {
                return Err(e);
            },
            Ok(_) => {},
        }
        Self::run_vm(vm)
    }

    /// Gives the global or local `name` the value `val`, as an assignment in
    /// the program would. Nothing happens without a machine, or when the
    /// globals have no room for a new name.
    pub fn set_var(&mut self, name: &str, val: CellData)
        requires
            old(self).wf(),
        ensures
            final(self).wf(),
            final(self).pixel_count == old(self).pixel_count,
            final(self).last_millis == old(self).last_millis,
            final(self).host == old(self).host,
            match old(self).vm {
                None => final(self).vm is None,
                Some(before) => final(self).vm matches Some(after) && after@ == assign(
                    before@,
                    name@,
                    val,
                ).0 && after.runtime == before.runtime,
            },
    {
        match self.vm.take() {
            None => {},
            Some(vm) => {
                let mut vm = vm;
                let _ = vm.try_set_var(name, val);
                self.vm = Some(vm);
            },
        }
    }

    /// Tells the program that the control `name` was moved to `val`: the
    /// function of that name is called with the value. `Vanished` without a
    /// machine.
    pub fn on_slider(&mut self, name: &str, val: CellData) -> (r: Result<(), VMError>)
        requires
            old(self).wf(),
        ensures
            final(self).wf(),
            final(self).pixel_count == old(self).pixel_count,
            final(self).last_millis == old(self).last_millis,
            final(self).host == old(self).host,
            r == Err::<(), VMError>(VMError::Vanished) <==> old(self).vm is None,
            match old(self).vm {
                None => r == Err::<(), VMError>(VMError::Vanished) && final(self).vm is None,
                Some(before) => final(self).vm matches Some(after) && kept(before, after)
                    && forall|o: Oracle<PixelBlazeFFI>| #[trigger]
                    agrees(o, after@.history) ==> (after@, r) == invoke_spec::<PixelBlazeFFI, RT>(
                        before@,
                        name@,
                        val,
                        o,
                    ),
            },
    {
        let mut vm = match self.vm.take() {
            None => {
                return Err(VMError::Vanished);
            },
            Some(vm) => vm,
        };
        let r = invoke(&mut vm, name, val);
        self.vm = Some(vm);
        r
    }

    /// The global variables of the machine.
    pub fn globals(&self) -> (r: Option<&VarStorage>)
        ensures
            match self.vm {
                None => r is None,
                Some(vm) => r is Some && *r->Some_0 == vm.globals,
            },
    {
        match &self.vm {
            None => None,
            Some(vm) => Some(vm.globals()),
        }
    }

    /// Renders one frame at the time that the runtime's clock says.
    /// `Vanished` without a machine; else as [`Executor::frame_at`] for the
    /// time read.
    pub fn do_frame(&mut self) -> (r: Result<(), VMError>)
        requires
            old(self).wf(),
        ensures
            final(self).wf(),
            final(self).pixel_count == old(self).pixel_count,
            r == Err::<(), VMError>(VMError::Vanished) <==> old(self).vm is None,
            match old(self).vm {
                None => r == Err::<(), VMError>(VMError::Vanished) && final(self).vm is None
                    && final(self).last_millis == old(self).last_millis && final(self).host
                    == old(self).host,
                Some(before) => final(self).vm matches Some(after) && kept(before, after)
                    && forall|o: Oracle<PixelBlazeFFI>| #[trigger]
                    agrees(o, after@.history) ==> (after@, r) == frame_spec::<PixelBlazeFFI, RT>(
                        before@,
                        clamp_delta(final(self).last_millis, old(self).last_millis),
                        old(self).pixel_count as nat,
                        o,
                    ) && final(self).host@ == old(self).host@ + frame_calls::<PixelBlazeFFI, RT>(
                        before@,
                        clamp_delta(final(self).last_millis, old(self).last_millis),
                        old(self).pixel_count as nat,
                        o,
                    ),
            },
    {
        let now = match self.vm.take() {
            None => {
                return Err(VMError::Vanished);
            },
            Some(vm) => {
                let mut vm = vm;
                let now = vm.runtime.time_millis();
                self.vm = Some(vm);
                now
            },
        };
        self.frame_at(now)
    }

    /// Renders one frame at the time `now`: `beforeRender` is called with the
    /// time since the last frame, then, between the runtime's `led_begin`
    /// and `led_commit`, `render` is called for every pixel in order, each
    /// after `set_led_idx` for that pixel. The first error ends the frame.
    /// `Vanished` without a machine.
    pub fn frame_at(&mut self, now: u32) -> (r: Result<(), VMError>)
        requires
            old(self).wf(),
        ensures
            final(self).wf(),
            final(self).pixel_count == old(self).pixel_count,
            r == Err::<(), VMError>(VMError::Vanished) <==> old(self).vm is None,
            match old(self).vm {
                None => r == Err::<(), VMError>(VMError::Vanished) && final(self).vm is None
                    && final(self).last_millis == old(self).last_millis && final(self).host
                    == old(self).host,
                Some(before) => final(self).vm matches Some(after) && kept(before, after)
                    && final(self).last_millis == now
                    && forall|o: Oracle<PixelBlazeFFI>| #[trigger]
                    agrees(o, after@.history) ==> (after@, r) == frame_spec::<PixelBlazeFFI, RT>(
                        before@,
                        clamp_delta(now, old(self).last_millis),
                        old(self).pixel_count as nat,
                        o,
                    ) && final(self).host@ == old(self).host@ + frame_calls::<PixelBlazeFFI, RT>(
                        before@,
                        clamp_delta(now, old(self).last_millis),
                        old(self).pixel_count as nat,
                        o,
                    ),
            },
    {
        let mut vm = match self.vm.take() {
            None => {
                return Err(VMError::Vanished);
            },
            Some(vm) => vm,
        };
        let delta = delta_since(now, self.last_millis);
        self.last_millis = now;
        let (r, calls) = Self::frame_vm(&mut vm, delta, self.pixel_count);
        self.vm = Some(vm);
        proof {
            self.host@ = self.host@ + calls@;
        }
        r
    }

    /// The frame, on the machine itself. With the result come the calls made
    /// to the host.
    fn frame_vm(vm: &mut VM<PixelBlazeFFI, RT>, delta: CellData, pixel_count: usize) -> (r: (
        Result<(), VMError>,
        Ghost<Seq<HostEvent>>,
    ))
        requires
            old(vm).wf(),
        ensures
            kept(*old(vm), *final(vm)),
            present(r.0),
            forall|o: Oracle<PixelBlazeFFI>| #[trigger]
                agrees(o, final(vm)@.history) ==> (final(vm)@, r.0) == frame_spec::<
                    PixelBlazeFFI,
                    RT,
                >(old(vm)@, delta, pixel_count as nat, o) && r.1@ == frame_calls::<PixelBlazeFFI, RT>(
                    old(vm)@,
                    delta,
                    pixel_count as nat,
                    o,
                ),
    {
        let ghost n = pixel_count as nat;
        match invoke(vm, "beforeRender", delta) {
            Err(e) => {
                return (Err(e), Ghost(Seq::empty()));
            },
            Ok(_) => {},
        }
        vm.runtime.led_begin();
        let ghost mut calls = seq![HostEvent { call: HostCall::Begin, at: vm@.history.len() }];
        proof {
            assert forall|o: Oracle<PixelBlazeFFI>| #[trigger] agrees(o, vm@.history) implies frame_calls::<
                PixelBlazeFFI,
                RT,
            >(old(vm)@, delta, n, o) == calls + pixel_calls::<PixelBlazeFFI, RT>(vm@, 0, n, o)
                + commit_call(pixels_spec::<PixelBlazeFFI, RT>(vm@, 0, n, o)) by {}
        }
        let mut i: usize = 0;
        while i < pixel_count
            invariant
                kept(*old(vm), *vm),
                i <= pixel_count,
                n == pixel_count as nat,
                forall|o: Oracle<PixelBlazeFFI>| #[trigger]
                    agrees(o, vm@.history) ==> frame_spec::<PixelBlazeFFI, RT>(
                        old(vm)@,
                        delta,
                        n,
                        o,
                    ) == pixels_spec::<PixelBlazeFFI, RT>(vm@, i as nat, n, o) && frame_calls::<
                        PixelBlazeFFI,
                        RT,
                    >(old(vm)@, delta, n, o) == calls + pixel_calls::<PixelBlazeFFI, RT>(
                        vm@,
                        i as nat,
                        n,
                        o,
                    ) + commit_call(pixels_spec::<PixelBlazeFFI, RT>(vm@, i as nat, n, o)),
            decreases pixel_count - i,
        {
            if i > 32767 {
                proof {
                    assert forall|o: Oracle<PixelBlazeFFI>| #[trigger]
                        agrees(o, vm@.history) implies frame_calls::<PixelBlazeFFI, RT>(
                        old(vm)@,
                        delta,
                        n,
                        o,
                    ) == calls by {
                        assert(calls + Seq::<HostEvent>::empty() + Seq::<HostEvent>::empty()
                            =~= calls);
                    }
                }
                return (Err(VMError::Overflow), Ghost(calls));
            }
            let ghost before = vm@;
            let ghost so_far = calls;
            vm.runtime.set_led_idx(i);
            let ghost index = HostEvent { call: HostCall::Index(i), at: before.history.len() };
            proof {
                calls = calls.push(index);
            }
            let res = invoke(vm, "render", CellData::from_num(i as i32));
            proof {
                assert forall|o: Oracle<PixelBlazeFFI>| #[trigger]
                    agrees(o, vm@.history) implies frame_spec::<PixelBlazeFFI, RT>(
                    old(vm)@,
                    delta,
                    n,
                    o,
                ) == (match res {
                    Err(e) => (vm@, res),
                    Ok(_) => pixels_spec::<PixelBlazeFFI, RT>(vm@, (i + 1) as nat, n, o),
                }) && frame_calls::<PixelBlazeFFI, RT>(old(vm)@, delta, n, o) == (match res {
                    Err(e) => calls,
                    Ok(_) => calls + pixel_calls::<PixelBlazeFFI, RT>(vm@, (i + 1) as nat, n, o)
                        + commit_call(
                        pixels_spec::<PixelBlazeFFI, RT>(vm@, (i + 1) as nat, n, o),
                    ),
                }) by {
                    lemma_agrees_earlier(o, before.history, vm@.history);
                    let rest = pixel_calls::<PixelBlazeFFI, RT>(vm@, (i + 1) as nat, n, o);
                    let end = commit_call(
                        pixels_spec::<PixelBlazeFFI, RT>(vm@, (i + 1) as nat, n, o),
                    );
                    match res {
                        Err(e) => {
                            assert(so_far + (seq![index] + Seq::<HostEvent>::empty()) + Seq::<
                                HostEvent,
                            >::empty() =~= so_far.push(index));
                        },
                        Ok(_) => {
                            assert(so_far + (seq![index] + rest) + end =~= so_far.push(index) + rest
                                + end);
                        },
                    }
                }
            }
            match res {
                Err(e) => {
                    return (Err(e), Ghost(calls));
                },
                Ok(_) => {},
            }
            i += 1;
        }
        vm.runtime.led_commit();
        let ghost commit = HostEvent { call: HostCall::Commit, at: vm@.history.len() };
        proof {
            assert forall|o: Oracle<PixelBlazeFFI>| #[trigger]
                agrees(o, vm@.history) implies frame_calls::<PixelBlazeFFI, RT>(
                old(vm)@,
                delta,
                n,
                o,
            ) == calls.push(commit) by {
                assert(calls + Seq::<HostEvent>::empty() + seq![commit] =~= calls.push(commit));
            }
        }
        (Ok(()), Ghost(calls.push(commit)))
    }

    /// The number of pixels.
    pub fn pixel_count(&self) -> (r: usize)
        ensures
            r == self.pixel_count,
    {
        self.pixel_count
    }

    /// The runtime of the machine.
    pub fn runtime(&self) -> (r: Option<&RT>)
        ensures
            match self.vm {
                None => r is None,
                Some(vm) => r is Some && *r->Some_0 == vm.runtime,
            },
    {
        match &self.vm {
            None => None,
            Some(vm) => Some(vm.runtime()),
        }
    }

    /// The runtime of the machine, to change it: the rest of the machine
    /// and of the executor stays.
    pub fn runtime_mut(&mut self) -> (r: Option<&mut RT>)
        ensures
            final(self).pixel_count == old(self).pixel_count,
            final(self).last_millis == old(self).last_millis,
            final(self).host == old(self).host,
            match old(self).vm {
                None => r is None && final(self).vm is None,
                Some(before) => r matches Some(rt) && *rt == before.runtime && final(self).vm
                    == Some(VM { runtime: *final(rt), ..before }),
            },
    {
        match &mut self.vm {
            None => None,
            Some(vm) => Some(vm.runtime_mut()),
        }
    }

    /// Puts a machine in, in place of the one that may be there.
    pub fn set_vm(&mut self, vm: VM<PixelBlazeFFI, RT>)
        requires
            vm.wf(),
        ensures
            final(self).wf(),
            final(self).vm == Some(vm),
            final(self).pixel_count == old(self).pixel_count,
            final(self).last_millis == old(self).last_millis,
            final(self).host == old(self).host,
    {
        self.vm = Some(vm);
    }

    /// Puts `next` in the place of the machine that is there, with that
    /// machine's runtime: the runtime that `next` came with is dropped.
    /// `Vanished`, and `next` dropped, without a machine.
    pub fn transplant(&mut self, next: VM<PixelBlazeFFI, RT>) -> (r: Result<(), VMError>)
        requires
            old(self).wf(),
            next.wf(),
        ensures
            final(self).wf(),
            final(self).pixel_count == old(self).pixel_count,
            final(self).last_millis == old(self).last_millis,
            final(self).host == old(self).host,
            match old(self).vm {
                None => r == Err::<(), VMError>(VMError::Vanished) && final(self).vm is None,
                Some(before) => r is Ok && final(self).vm == Some(
                    VM { runtime: before.runtime, ..next },
                ),
            },
    {
        match self.vm.take() {
            None => Err(VMError::Vanished),
            Some(old_vm) => {
                let mut next = next;
                next.runtime = old_vm.dismember();
                self.vm = Some(next);
                Ok(())
            },
        }
    }

    /// Swaps the program while the host keeps running: `next` gets the
    /// runtime of the machine that is there, takes its place, and is
    /// started. `Vanished` without a machine.
    pub fn hot_swap(&mut self, next: VM<PixelBlazeFFI, RT>) -> (r: Result<(), VMError>)
        requires
            old(self).wf(),
            next.wf(),
        ensures
            final(self).wf(),
            final(self).pixel_count == old(self).pixel_count,
            final(self).host == old(self).host,
            r is Err ==> final(self).last_millis == old(self).last_millis,
            r == Err::<(), VMError>(VMError::Vanished) <==> old(self).vm is None,
            match old(self).vm {
                None => r == Err::<(), VMError>(VMError::Vanished) && final(self).vm is None,
                Some(before) => final(self).vm matches Some(after) && after.funcs == next.funcs
                    && forall|o: Oracle<PixelBlazeFFI>| #[trigger]
                    agrees(o, after@.history) ==> (after@, r) == start_spec::<RT>(
                        next@,
                        vstd::utf8::encode_utf8("*** VM START ***\n"@),
                        old(self).pixel_count,
                        o,
                    ),
            },
    {
        match self.transplant(next) {
            Err(e) => Err(e),
            Ok(_) => self.start(),
        }
    }

    /// Takes the machine out.
    pub fn take_vm(&mut self) -> (r: Option<VM<PixelBlazeFFI, RT>>)
        requires
            old(self).wf(),
        ensures
            r == old(self).vm,
            r matches Some(vm) ==> vm.wf(),
            final(self).vm is None,
            final(self).wf(),
            final(self).pixel_count == old(self).pixel_count,
            final(self).last_millis == old(self).last_millis,
            final(self).host == old(self).host,
    {
        self.vm.take()
    }
}

} // verus!
