//! What holds of the foreign operations of effect programs when the machine
//! calls them.

use crate::forth::cell::{CellView, FFIOps, OpView, Param, VMError};
use crate::forth::cell_data::CellData;
use crate::forth::semantics::{
    allowed, collect_spec, eval_spec, run_spec, ForeignCall, Oracle, VMState,
    RETURN_STACK_CAPACITY,
};
use crate::forth::util::{
    lemma_pack_unpack, len_marker, marker_len, pack_spec, packed_cells, unpack_str_spec,
    words_needed,
};
use crate::pixelblaze::ffi::{computes, request_spec, value_spec, PixelBlazeFFI, RequestView};
use crate::vanillajs::runtime::TEXT_CAPACITY;
use crate::pixelblaze::traits::PixelBlazeRuntime;
use vstd::prelude::*;

verus! {

/// A call of an operation that computes from its argument alone (`sin`,
/// `wave`, `abs`) succeeds when a number lies on top of the data stack and
/// the return stack has room: the number is taken, the call is recorded with
/// the operation's value as its answer, and the value goes to the return
/// stack. The host has no say in it: the law holds of every history of
/// allowed answers.
pub proof fn lemma_computed_call<RT: PixelBlazeRuntime>(
    s: VMState<PixelBlazeFFI>,
    op: PixelBlazeFFI,
    x: CellData,
    fuel: nat,
    o: Oracle<PixelBlazeFFI>,
)
    requires
        computes(op) && op != PixelBlazeFFI::Time,
        s.stack.len() > 0,
        s.stack.last() == CellView::<PixelBlazeFFI>::Val(x),
        s.return_stack.len() < RETURN_STACK_CAPACITY,
        allowed::<PixelBlazeFFI, RT>(
            eval_spec::<PixelBlazeFFI, RT>(s, OpView::FFI(op), fuel, o).0.history,
        ),
    ensures
        value_spec(op, seq![CellView::Val(x)], 0) is Ok,
        eval_spec::<PixelBlazeFFI, RT>(s, OpView::FFI(op), fuel, o) == (
            VMState {
                stack: s.stack.drop_last(),
                return_stack: s.return_stack.push(
                    CellView::Val(value_spec(op, seq![CellView::Val(x)], 0)->Ok_0),
                ),
                history: s.history.push(
                    ForeignCall {
                        op,
                        params: seq![CellView::Val(x)],
                        answer: Ok(CellView::Val(value_spec(op, seq![CellView::Val(x)], 0)->Ok_0)),
                    },
                ),
                ..s
            },
            Ok::<(), VMError>(()),
        ),
{
    let info = <PixelBlazeFFI as FFIOps<RT>>::call_info_spec(&op);
    assert(info == seq![Param::Normal]);
    let s1 = VMState { stack: s.stack.drop_last(), ..s };
    let params = seq![CellView::<PixelBlazeFFI>::Val(x)];
    assert(run_spec::<PixelBlazeFFI, RT>(s, fuel, o) == (s, Ok::<(), VMError>(())));
    assert(Seq::<CellView<PixelBlazeFFI>>::empty().push(s.stack.last()) =~= params);
    assert(collect_spec::<PixelBlazeFFI, RT>(s1, info, 1, params, fuel, o) == (s1, Ok::<_, VMError>(params)));
    assert(collect_spec::<PixelBlazeFFI, RT>(s, info, 0, Seq::empty(), fuel, o) == (s1, Ok::<_, VMError>(params)));
    let answer = o(s.history.len());
    let after = eval_spec::<PixelBlazeFFI, RT>(s, OpView::FFI(op), fuel, o).0;
    let call = ForeignCall { op, params, answer };
    assert(after.history == s.history.push(call));
    assert(after.history[s.history.len() as int] == call);
    assert(<PixelBlazeFFI as FFIOps<RT>>::allows(&op, params, answer));
}

/// A call of `console_log` succeeds when a text of at most 32 bytes lies
/// packed on top of the data stack and the return stack has room: the
/// packed text is taken off, what the host is asked is to log that text, the
/// call is recorded with the answer `Null`, and `Null` goes to the return
/// stack.
pub proof fn lemma_logged_call<RT: PixelBlazeRuntime>(
    s: VMState<PixelBlazeFFI>,
    text: Seq<char>,
    fuel: nat,
    o: Oracle<PixelBlazeFFI>,
)
    requires
        vstd::utf8::encode_utf8(text).len() <= TEXT_CAPACITY,
        s.return_stack.len() < RETURN_STACK_CAPACITY,
        allowed::<PixelBlazeFFI, RT>(
            eval_spec::<PixelBlazeFFI, RT>(
                VMState { stack: s.stack + pack_spec(vstd::utf8::encode_utf8(text)), ..s },
                OpView::FFI(PixelBlazeFFI::ConsoleLog),
                fuel,
                o,
            ).0.history,
        ),
    ensures
        request_spec(PixelBlazeFFI::ConsoleLog, pack_spec(vstd::utf8::encode_utf8(text)))
            == RequestView::Log(text),
        eval_spec::<PixelBlazeFFI, RT>(
            VMState { stack: s.stack + pack_spec(vstd::utf8::encode_utf8(text)), ..s },
            OpView::FFI(PixelBlazeFFI::ConsoleLog),
            fuel,
            o,
        ) == (
            VMState {
                return_stack: s.return_stack.push(CellView::Null),
                history: s.history.push(
                    ForeignCall {
                        op: PixelBlazeFFI::ConsoleLog,
                        params: pack_spec(vstd::utf8::encode_utf8(text)),
                        answer: Ok(CellView::Null),
                    },
                ),
                ..s
            },
            Ok::<(), VMError>(()),
        ),
{
    let op = PixelBlazeFFI::ConsoleLog;
    let bytes = vstd::utf8::encode_utf8(text);
    let packed = pack_spec::<PixelBlazeFFI>(bytes);
    let whole = s.stack + packed;
    let len = bytes.len() as int;
    let before = VMState { stack: whole, ..s };
    let info = <PixelBlazeFFI as FFIOps<RT>>::call_info_spec(&op);
    assert(info == seq![Param::DynPacked]);
    assert(packed.last() == len_marker::<PixelBlazeFFI>(len));
    assert(whole.last() == packed.last());
    assert(marker_len(whole.last()) == Some(len)) by {
        assert((len * 0x1_0000) as i32 == len * 0x1_0000);
    }
    let n = words_needed(len) + 1;
    assert(packed.len() == n);
    assert(packed_cells(whole.last()) == Some(n));
    assert(whole.skip(whole.len() - n) =~= packed);
    assert(whole.take(whole.len() - n) =~= s.stack);
    assert(Seq::<CellView<PixelBlazeFFI>>::empty() + packed =~= packed);
    lemma_pack_unpack::<PixelBlazeFFI>(bytes, TEXT_CAPACITY as int);
    vstd::utf8::encode_utf8_valid_utf8(text);
    vstd::utf8::encode_utf8_decode_utf8(text);
    assert(unpack_str_spec(packed, TEXT_CAPACITY as int) == Some(text));
    let taken = VMState { stack: whole.take(whole.len() - n), ..before };
    assert(taken == s);
    assert(collect_spec::<PixelBlazeFFI, RT>(s, info, 1, packed, fuel, o) == (
        s,
        Ok::<_, VMError>(packed),
    ));
    assert(collect_spec::<PixelBlazeFFI, RT>(before, info, 0, Seq::empty(), fuel, o) == (
        s,
        Ok::<_, VMError>(packed),
    ));
    let answer = o(s.history.len());
    let after = eval_spec::<PixelBlazeFFI, RT>(before, OpView::FFI(op), fuel, o).0;
    let call = ForeignCall { op, params: packed, answer };
    assert(after.history == s.history.push(call));
    assert(after.history[s.history.len() as int] == call);
    assert(<PixelBlazeFFI as FFIOps<RT>>::allows(&op, packed, answer));
}

} // verus!
