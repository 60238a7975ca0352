//! The smallest flavor: one foreign operation, which logs a text.

use crate::forth::cell::{answer_view, cells_view, Cell, CellView, FFIOps, Param, VMError};
use crate::vanillajs::runtime::{
    answer_of, log_request, log_request_spec, perform, VanillaJSRuntime,
};
use vstd::prelude::*;

verus! {

/// The foreign operations of the smallest flavor.
#[derive(Clone, Copy, Debug, PartialEq, Eq, Structural)]
pub enum JSIshFFI {
    ConsoleLogStr,
}

impl<RT: VanillaJSRuntime> FFIOps<RT> for JSIshFFI {
    open spec fn call_info_spec(&self) -> Seq<Param> {
        seq![Param::DynPacked]
    }

    open spec fn allows(&self, params: Seq<CellView<Self>>, answer: Result<CellView<Self>, VMError>) -> bool {
        answer == answer_view(answer_of::<JSIshFFI>(log_request_spec(params)))
    }

    fn call_info(&self) -> (info: Vec<Param>) {
        vec![Param::DynPacked]
    }

    /// Carries out the request to log the text of the packed string, and
    /// returns `Null`; `Malformed` when the parameters are no text.
    fn dispatch(&self, rt: &mut RT, params: &Vec<Cell<Self>>) -> (r: Result<Cell<Self>, VMError>)
        ensures
            r == answer_of::<JSIshFFI>(log_request_spec(cells_view(params@))),
            r is Err ==> *final(rt) == *old(rt),
    {
        perform(rt, log_request(params))
    }
}

} // verus!
