//! The word interpreter: a line is cut into tokens, and each token is a
//! special form, a special variable, a built-in word, a defined word, a
//! number, a constant or a variable, asked in that order.
//!
//! What the interpreter writes goes to the output of the environment. An
//! error is written and ends the line. Defined words, conditionals and loops
//! nest; the `fuel` bounds how deep.

use crate::forth::cell::Name;
use crate::forth::cell_data::wrap_i32;
use crate::forth::env::{
    array_set_spec, func_text, func_to_text, written, ForthEnv, ForthEnvView, ForthFunc,
    ForthResult, ForthVar, ForthVarView, VarRef, VarRefView,
};
use crate::forth::ops;
use crate::forth::ops::{same_result, Effect};
use crate::forth::store::{lemma_find_key_at, lemma_find_key_none};
use crate::forth::table::{table_del, table_get, table_put};
use crate::forth::text::{
    decimal_text, decimal_texts, int_to_string, join, join3, list_text, parse_i32, parsed_i32, same,
    tokens, tokens_spec, trim, trim_spec,
};
use vstd::prelude::*;
use vstd::string::StrSliceExecFns;

verus! {

/// How deep defined words, conditionals and loops may nest.
pub const NESTING_LIMIT: u32 = 256;

/// The built-in words.
#[derive(Clone, Copy, Debug, PartialEq, Eq, Structural)]
pub enum Builtin {
    Add,
    Subtract,
    Mul,
    Div,
    Modulus,
    And,
    Or,
    PrintStack,
    PrintFunc,
    PrintVars,
    Dup,
    Pop,
    Drop,
    Swap,
    Over,
    Rot,
    Emit,
    Cr,
    Eq,
    NotEq,
    Lt,
    Gt,
    LtEq,
    GtEq,
    Invert,
}

/// The names of the built-in words.
pub open spec fn builtin_names() -> Seq<(Name, Builtin)> {
    seq![
        ("+"@, Builtin::Add),
        ("-"@, Builtin::Subtract),
        ("*"@, Builtin::Mul),
        ("/"@, Builtin::Div),
        ("mod"@, Builtin::Modulus),
        ("and"@, Builtin::And),
        ("or"@, Builtin::Or),
        ("p"@, Builtin::PrintStack),
        ("d"@, Builtin::PrintFunc),
        ("v"@, Builtin::PrintVars),
        ("dup"@, Builtin::Dup),
        ("."@, Builtin::Pop),
        ("drop"@, Builtin::Drop),
        ("swap"@, Builtin::Swap),
        ("over"@, Builtin::Over),
        ("rot"@, Builtin::Rot),
        ("emit"@, Builtin::Emit),
        ("cr"@, Builtin::Cr),
        ("="@, Builtin::Eq),
        ("!="@, Builtin::NotEq),
        ("<"@, Builtin::Lt),
        (">"@, Builtin::Gt),
        ("<="@, Builtin::LtEq),
        (">="@, Builtin::GtEq),
        ("invert"@, Builtin::Invert),
    ]
}

/// What a built-in word does.
pub open spec fn builtin_effect(b: Builtin, s: ForthEnvView) -> Effect {
    match b {
        Builtin::Add => ops::add_spec(s),
        Builtin::Subtract => ops::subtract_spec(s),
        Builtin::Mul => ops::mul_spec(s),
        Builtin::Div => ops::div_spec(s),
        Builtin::Modulus => ops::modulus_spec(s),
        Builtin::And => ops::and_spec(s),
        Builtin::Or => ops::or_spec(s),
        Builtin::PrintStack => ops::print_stack_spec(s),
        Builtin::PrintFunc => ops::print_func_spec(s),
        Builtin::PrintVars => ops::print_vars_spec(s),
        Builtin::Dup => ops::dup_spec(s),
        Builtin::Pop => ops::pop_spec(s),
        Builtin::Drop => ops::drop_spec(s),
        Builtin::Swap => ops::swap_spec(s),
        Builtin::Over => ops::over_spec(s),
        Builtin::Rot => ops::rot_spec(s),
        Builtin::Emit => ops::emit_spec(s),
        Builtin::Cr => ops::cr_spec(s),
        Builtin::Eq => ops::eq_spec(s),
        Builtin::NotEq => ops::not_eq_spec(s),
        Builtin::Lt => ops::lt_spec(s),
        Builtin::Gt => ops::gt_spec(s),
        Builtin::LtEq => ops::lt_eq_spec(s),
        Builtin::GtEq => ops::gt_eq_spec(s),
        Builtin::Invert => ops::invert_spec(s),
    }
}

/// Runs a built-in word; see [`builtin_effect`].
pub fn run_builtin(b: Builtin, env: &mut ForthEnv) -> (r: ForthResult<()>)
    ensures
        final(env).wf() == old(env).wf(),
        ops::done(*final(env), r, builtin_effect(b, old(env)@)),
{
    match b {
        Builtin::Add => ops::add(env),
        Builtin::Subtract => ops::subtract(env),
        Builtin::Mul => ops::mul(env),
        Builtin::Div => ops::div(env),
        Builtin::Modulus => ops::modulus(env),
        Builtin::And => ops::and(env),
        Builtin::Or => ops::or(env),
        Builtin::PrintStack => ops::print_stack(env),
        Builtin::PrintFunc => ops::print_func(env),
        Builtin::PrintVars => ops::print_vars(env),
        Builtin::Dup => ops::dup(env),
        Builtin::Pop => ops::pop(env),
        Builtin::Drop => ops::drop(env),
        Builtin::Swap => ops::swap(env),
        Builtin::Over => ops::over(env),
        Builtin::Rot => ops::rot(env),
        Builtin::Emit => ops::emit(env),
        Builtin::Cr => ops::cr(env),
        Builtin::Eq => ops::eq(env),
        Builtin::NotEq => ops::not_eq(env),
        Builtin::Lt => ops::lt(env),
        Builtin::Gt => ops::gt(env),
        Builtin::LtEq => ops::lt_eq(env),
        Builtin::GtEq => ops::gt_eq(env),
        Builtin::Invert => ops::invert(env),
    }
}

/// Whether a text can name a word or a variable: it is no number.
pub open spec fn valid_name_spec(name: Name) -> bool {
    parsed_i32(name) is None
}

/// Whether a text can name a word or a variable: it is no number.
pub fn valid_forth_name(name: &str) -> (r: bool)
    ensures
        r == valid_name_spec(name@),
{
    parse_i32(name).is_none()
}

/// Whether a line asks to leave: `quit`, `q` or `exit`.
pub fn to_quit(cmd: &str) -> (r: bool)
    ensures
        r == (cmd@ == "quit"@ || cmd@ == "q"@ || cmd@ == "exit"@),
{
    same(cmd, "quit") || same(cmd, "q") || same(cmd, "exit")
}

/// The sum that the foreign word `rs+` computes.
pub fn rs_add(a: i32, b: i32) -> (r: i32)
    ensures
        r == wrap_i32(a + b),
{
    ops::wrapping_sum(a, b)
}

/// What a form says of a token: not mine, done, or failed with a message.
pub type Verdict = Option<Result<(), Seq<char>>>;

/// The state after a form has looked at a token: the environment, the
/// position of the next token, and the verdict.
pub struct Turn {
    pub env: ForthEnvView,
    pub pos: int,
    pub verdict: Verdict,
}

/// The message for nesting that goes too deep.
pub open spec fn too_deep_text() -> Seq<char> {
    "Evaluation too deep"@
}

/// The position of the first token at or after `from` that is `word`, or
/// the number of tokens when there is none.
pub open spec fn find_token(toks: Seq<Name>, from: int, word: Name) -> int
    decreases toks.len() - from,
{
    if from < 0 || from >= toks.len() || toks[from] == word {
        from
    } else {
        find_token(toks, from + 1, word)
    }
}

/// The tokens without those that are `word`.
pub open spec fn without(toks: Seq<Name>, word: Name) -> Seq<Name>
    decreases toks.len(),
{
    if toks.len() == 0 {
        Seq::empty()
    } else if toks.last() == word {
        without(toks.drop_last(), word)
    } else {
        without(toks.drop_last(), word).push(toks.last())
    }
}

/// The position after a section that ends at `end`: after the closing
/// token, if there is one.
pub open spec fn after_section(toks: Seq<Name>, end: int) -> int {
    if end < toks.len() {
        end + 1
    } else {
        toks.len() as int
    }
}

/// The definition that starts at `pos`: a valid name, then the words up to
/// a `;`. With the result goes the position after what was read.
pub open spec fn parse_function_spec(toks: Seq<Name>, pos: int) -> (
    Result<(Name, Seq<Name>), Seq<char>>,
    int,
) {
    if pos < 0 || pos >= toks.len() {
        (Err("Invalid function"@), pos)
    } else if !valid_name_spec(toks[pos]) {
        (Err("Invalid name for function: "@ + toks[pos]), pos + 1)
    } else {
        let end = find_token(toks, pos + 1, ";"@);
        if end >= toks.len() {
            (Err("Invalid function"@), toks.len() as int)
        } else {
            (Ok((toks[pos], toks.subrange(pos + 1, end))), end + 1)
        }
    }
}

/// The text that starts at `pos` and goes up to a token that ends in a
/// double quote, the tokens with a space after each; `acc` is what was read
/// before. With the result goes the position after what was read.
pub open spec fn parse_string_spec(toks: Seq<Name>, pos: int, acc: Seq<char>) -> (
    Result<Seq<char>, Seq<char>>,
    int,
)
    decreases toks.len() - pos,
{
    if pos < 0 || pos >= toks.len() {
        (Err("Nonterminated string"@), pos)
    } else {
        let m = toks[pos];
        if m == "\""@ {
            (Ok(acc), pos + 1)
        } else if m.len() > 0 && m.last() == '"' {
            (Ok(acc + m.drop_last()), pos + 1)
        } else {
            parse_string_spec(toks, pos + 1, acc + (m + " "@))
        }
    }
}

/// The message of a read from a position outside an array.
pub open spec fn out_of_range_get_text(pos: i32, len: int) -> Seq<char> {
    "Cannot get at position: "@ + decimal_text(pos as int) + " when array length is: "@
        + decimal_text(len)
}

/// `@`: the top reference goes, and the value it refers to is pushed.
pub open spec fn variable_get_spec(s: ForthEnvView) -> Effect {
    if s.var_refs.len() == 0 {
        (s, Err("No variable reference found to set value"@))
    } else {
        let s1 = ForthEnvView { var_refs: s.var_refs.drop_last(), ..s };
        match s.var_refs.last() {
            VarRefView::Var(name) => match table_get(s.vars, name) {
                Some(ForthVarView::Var(num)) => (
                    ForthEnvView { stack: s1.stack.push(num), ..s1 },
                    Ok(()),
                ),
                Some(ForthVarView::Array(_)) => (
                    s1,
                    Err("Unexpected array found when variable expected with name "@ + name),
                ),
                None => (s1, Err("No such variable: "@ + name)),
            },
            VarRefView::Array(name, pos) => match table_get(s.vars, name) {
                None => (s1, Err("No such array: "@ + name)),
                Some(ForthVarView::Var(_)) => (
                    s1,
                    Err("Unexpected variable found when array expected with name "@ + name),
                ),
                Some(ForthVarView::Array(items)) => if 0 <= pos < items.len() {
                    (ForthEnvView { stack: s1.stack.push(items[pos as int]), ..s1 }, Ok(()))
                } else {
                    (s1, Err(out_of_range_get_text(pos, items.len() as int)))
                },
            },
        }
    }
}

/// `!`: the top reference and the top number go, and the number becomes the
/// value of what the reference refers to. A plain variable that did not
/// exist is created, and that is reported as an error.
pub open spec fn variable_set_spec(s: ForthEnvView) -> Effect {
    if s.var_refs.len() == 0 {
        (s, Err("No variable reference found to set value"@))
    } else {
        let s1 = ForthEnvView { var_refs: s.var_refs.drop_last(), ..s };
        match s.var_refs.last() {
            VarRefView::Var(name) => if s1.stack.len() == 0 {
                (s1, Err("Stack empty to set variable value"@))
            } else {
                let s2 = ForthEnvView {
                    stack: s1.stack.drop_last(),
                    vars: table_put(s1.vars, name, ForthVarView::Var(s1.stack.last())),
                    ..s1
                };
                if table_get(s1.vars, name) is Some {
                    (s2, Ok(()))
                } else {
                    (s2, Err("No such variable: "@ + name))
                }
            },
            VarRefView::Array(name, pos) => if s1.stack.len() == 0 {
                (s1, Err("Stack empty to set array value"@))
            } else {
                let s2 = ForthEnvView { stack: s1.stack.drop_last(), ..s1 };
                if table_get(s2.vars, name) is Some {
                    match array_set_spec(s2.vars, name, pos, s1.stack.last()) {
                        Ok(vars) => (ForthEnvView { vars, ..s2 }, Ok(())),
                        Err(e) => (
                            s2,
                            Err("Setting array "@ + name + " value failed because: "@ + e),
                        ),
                    }
                } else {
                    (s2, Err("No such array: "@ + name))
                }
            },
        }
    }
}

/// `cells`: wants a number on the stack, and does nothing.
pub open spec fn cells_spec(s: ForthEnvView) -> Effect {
    if s.stack.len() == 0 {
        (s, Err("Empty stack to evaluate cells"@))
    } else {
        (s, Ok(()))
    }
}

/// As many zeros as `length` says, none for a negative length.
pub open spec fn zeros(length: i32) -> Seq<i32> {
    Seq::new(
        if length < 0 {
            0nat
        } else {
            length as nat
        },
        |i: int| 0i32,
    )
}

/// `allot`: the top reference, to a plain variable, and the top number go,
/// and the variable becomes an array of that many zeros.
pub open spec fn allot_spec(s: ForthEnvView) -> Effect {
    if s.var_refs.len() == 0 {
        (s, Err("No variable found to allocate as an array!"@))
    } else {
        let s1 = ForthEnvView { var_refs: s.var_refs.drop_last(), ..s };
        match s.var_refs.last() {
            VarRefView::Var(name) => if s1.stack.len() == 0 {
                (s1, Err("Stack empty to allot array"@))
            } else {
                (
                    ForthEnvView {
                        stack: s1.stack.drop_last(),
                        vars: table_put(s1.vars, name, ForthVarView::Array(zeros(s1.stack.last()))),
                        ..s1
                    },
                    Ok(()),
                )
            },
            VarRefView::Array(name, _) => (s1, Err(name + " is already an array"@)),
        }
    }
}

/// `+` on a reference to an array: the top number goes and becomes the slot
/// that the reference refers to. Without a reference the token is not this
/// form's.
pub open spec fn set_array_slot_spec(s: ForthEnvView) -> (ForthEnvView, Verdict) {
    if s.var_refs.len() == 0 {
        (s, None)
    } else {
        match s.var_refs.last() {
            VarRefView::Var(name) => (
                s,
                Some(Err("Cannot set slot on normal variable: "@ + name)),
            ),
            VarRefView::Array(name, _) => if s.stack.len() == 0 {
                (s, Some(Err("Stack empty to set slot value for array"@)))
            } else {
                (
                    ForthEnvView {
                        stack: s.stack.drop_last(),
                        var_refs: s.var_refs.drop_last().push(
                            VarRefView::Array(name, s.stack.last()),
                        ),
                        ..s
                    },
                    Some(Ok(())),
                )
            },
        }
    }
}

/// `variable`: the next token, a valid name, becomes a variable with the
/// value zero, and a reference to it is pushed.
pub open spec fn intro_variable_spec(s: ForthEnvView, toks: Seq<Name>, next: int) -> Turn {
    if next < 0 || next >= toks.len() {
        Turn { env: s, pos: next, verdict: Some(Err("Variable name not found"@)) }
    } else if valid_name_spec(toks[next]) {
        Turn {
            env: ForthEnvView {
                vars: table_put(s.vars, toks[next], ForthVarView::Var(0)),
                var_refs: s.var_refs.push(VarRefView::Var(toks[next])),
                ..s
            },
            pos: next + 1,
            verdict: Some(Ok(())),
        }
    } else {
        Turn {
            env: s,
            pos: next + 1,
            verdict: Some(Err("Invalid variable name: "@ + toks[next])),
        }
    }
}

/// `constant`: the top number goes and becomes the constant that the next
/// token names.
pub open spec fn intro_constant_spec(s: ForthEnvView, toks: Seq<Name>, next: int) -> Turn {
    if next < 0 || next >= toks.len() {
        Turn { env: s, pos: next, verdict: Some(Err("Variable name not found"@)) }
    } else if s.stack.len() == 0 {
        Turn {
            env: s,
            pos: next + 1,
            verdict: Some(Err("Stack empty to set constant "@ + toks[next])),
        }
    } else {
        Turn {
            env: ForthEnvView {
                stack: s.stack.drop_last(),
                constants: table_put(s.constants, toks[next], s.stack.last()),
                ..s
            },
            pos: next + 1,
            verdict: Some(Ok(())),
        }
    }
}

/// The foreign word `rs+`: the two top numbers go and their sum is pushed.
/// With fewer than two numbers the token is nobody's, and what was taken
/// off stays off.
pub open spec fn ffi_spec(s: ForthEnvView, name: Name) -> (ForthEnvView, Verdict) {
    if name == "rs+"@ {
        if s.stack.len() >= 2 {
            (
                ForthEnvView {
                    stack: s.stack.take(s.stack.len() - 2).push(
                        wrap_i32(s.stack[s.stack.len() - 1] + s.stack[s.stack.len() - 2]),
                    ),
                    ..s
                },
                Some(Ok(())),
            )
        } else {
            (ForthEnvView { stack: s.stack.take(0), ..s }, None)
        }
    } else {
        (s, None)
    }
}

/// What a token does that is no form, no special variable, no word and no
/// foreign word, when `parsed` is the number that the token stands for, if
/// it stands for one: a number is pushed; a constant's value is pushed; a
/// variable gets a reference pushed; anything else is an invalid token. The
/// flag tells whether the line goes on.
pub open spec fn number_or_name_spec(s: ForthEnvView, tok: Name, parsed: Option<i32>) -> (
    ForthEnvView,
    bool,
) {
    match parsed {
        Some(n) => (ForthEnvView { stack: s.stack.push(n), ..s }, true),
        None => match table_get(s.constants, tok) {
            Some(x) => (ForthEnvView { stack: s.stack.push(x), ..s }, true),
            None => match table_get(s.vars, tok) {
                Some(ForthVarView::Var(_)) => (
                    ForthEnvView { var_refs: s.var_refs.push(VarRefView::Var(tok)), ..s },
                    true,
                ),
                Some(ForthVarView::Array(_)) => (
                    ForthEnvView { var_refs: s.var_refs.push(VarRefView::Array(tok, 0)), ..s },
                    true,
                ),
                None => (written(s, "Invalid token: "@ + tok + "\n"@), false),
            },
        },
    }
}

/// What a token does that is no form, no special variable, no word and no
/// foreign word: [`number_or_name_spec`] for the number that the token
/// reads as.
pub open spec fn plain_token_spec(s: ForthEnvView, tok: Name) -> (ForthEnvView, bool) {
    number_or_name_spec(s, tok, parsed_i32(tok))
}

/// The environment after an error was written.
pub open spec fn failed(s: ForthEnvView, message: Seq<char>) -> ForthEnvView {
    written(s, "Error: "@ + message + "\n"@)
}

/// The environment after the end of a line was written: an arrow and the
/// stack.
pub open spec fn finished(s: ForthEnvView) -> ForthEnvView {
    written(s, "=> "@ + (list_text(decimal_texts(s.stack)) + "\n"@))
}

/// The evaluation of the tokens from `pos` on, then the end of the line.
/// Blank tokens are passed over; an error or an invalid token ends the line
/// early.
pub open spec fn eval_toks_spec(s: ForthEnvView, toks: Seq<Name>, pos: int, fuel: nat) -> ForthEnvView
    decreases fuel, 5nat, toks.len() - pos,
{
    if pos < 0 || pos >= toks.len() {
        finished(s)
    } else if trim_spec(toks[pos]).len() == 0 {
        eval_toks_spec(s, toks, pos + 1, fuel)
    } else {
        let (env, next, go) = token_spec(s, toks, pos, fuel);
        if go && pos < next <= toks.len() {
            eval_toks_spec(env, toks, next, fuel)
        } else {
            finished(env)
        }
    }
}

/// The evaluation of the token at `pos`: the environment after it, the
/// position of the next token, and whether the line goes on.
pub open spec fn token_spec(s: ForthEnvView, toks: Seq<Name>, pos: int, fuel: nat) -> (
    ForthEnvView,
    int,
    bool,
)
    decreases fuel, 4nat, 0nat,
{
    let tok = toks[pos];
    let t = special_spec(s, toks, pos, fuel);
    match t.verdict {
        Some(Ok(_)) => (t.env, t.pos, true),
        Some(Err(e)) => (failed(t.env, e), t.pos, false),
        None => match table_get(t.env.specials, tok) {
            Some(v) => (ForthEnvView { stack: t.env.stack.push(v), ..t.env }, t.pos, true),
            None => match table_get(builtin_names(), tok) {
                Some(b) => match builtin_effect(b, t.env) {
                    (env, Ok(_)) => (env, t.pos, true),
                    (env, Err(e)) => (failed(env, e), t.pos, false),
                },
                None => {
                    let (env, verdict) = function_spec(t.env, tok, fuel);
                    match verdict {
                        Some(Ok(_)) => (env, t.pos, true),
                        Some(Err(e)) => (failed(env, e), t.pos, false),
                        None => {
                            let (env2, verdict2) = ffi_spec(env, tok);
                            match verdict2 {
                                Some(Ok(_)) => (env2, t.pos, true),
                                Some(Err(e)) => (failed(env2, e), t.pos, false),
                                None => {
                                    let (env3, go) = plain_token_spec(env2, tok);
                                    (env3, t.pos, go)
                                },
                            }
                        },
                    }
                },
            },
        },
    }
}

/// A defined word: its words are evaluated as a line of their own.
pub open spec fn function_spec(s: ForthEnvView, name: Name, fuel: nat) -> (ForthEnvView, Verdict)
    decreases fuel, 2nat, 0nat,
{
    match table_get(s.funcs, name) {
        None => (s, None),
        Some(f) => if fuel == 0 {
            (s, Some(Err(too_deep_text())))
        } else {
            (eval_toks_spec(s, f.1, 0, (fuel - 1) as nat), Some(Ok(())))
        },
    }
}

/// `if`: the top number goes; the tokens up to `then` are the section, those
/// before its first `else` the first branch, those after it, further `else`
/// left out, the second. The first branch is evaluated as a line of its own
/// if the number is not zero, the second if it is.
pub open spec fn conditional_spec(s: ForthEnvView, toks: Seq<Name>, next: int, fuel: nat) -> Turn
    decreases fuel, 2nat, 0nat,
{
    if s.stack.len() == 0 {
        Turn { env: s, pos: next, verdict: Some(Err("Empty stack for condition in if"@)) }
    } else {
        let s1 = ForthEnvView { stack: s.stack.drop_last(), ..s };
        let end = find_token(toks, next, "then"@);
        let pos = after_section(toks, end);
        let section = toks.subrange(next, end);
        let k = find_token(section, 0, "else"@);
        let before = section.take(k);
        let found_else = k < section.len();
        let after = if found_else {
            without(section.skip(k + 1), "else"@)
        } else {
            Seq::empty()
        };
        if before.len() == 0 {
            Turn { env: s1, pos, verdict: Some(Err("Empty statement for then clause"@)) }
        } else if found_else && after.len() == 0 {
            Turn {
                env: s1,
                pos,
                verdict: Some(Err("Empty statement for then clause after else"@)),
            }
        } else if fuel == 0 {
            Turn { env: s1, pos, verdict: Some(Err(too_deep_text())) }
        } else {
            Turn {
                env: eval_toks_spec(
                    s1,
                    if s.stack.last() == 0 {
                        after
                    } else {
                        before
                    },
                    0,
                    (fuel - 1) as nat,
                ),
                pos,
                verdict: Some(Ok(())),
            }
        }
    }
}

/// The turns of a loop from `i` up to `end`: the special variable `i` is
/// set and the body evaluated as a line of its own.
pub open spec fn iterate_spec(s: ForthEnvView, body: Seq<Name>, i: int, end: int, fuel: nat) -> ForthEnvView
    decreases fuel, 6nat, end - i,
{
    if i >= end {
        s
    } else {
        iterate_spec(
            eval_toks_spec(
                ForthEnvView { specials: table_put(s.specials, "i"@, i as i32), ..s },
                body,
                0,
                fuel,
            ),
            body,
            i + 1,
            end,
            fuel,
        )
    }
}

/// `do`: the tokens up to `loop` are the body; the top number is the start
/// and the one below it the end, and the body is evaluated for every number
/// from the start up to the end, the end left out. After that the special
/// variable `i` is gone.
pub open spec fn do_loop_spec(s: ForthEnvView, toks: Seq<Name>, next: int, fuel: nat) -> Turn
    decreases fuel, 2nat, 0nat,
{
    let end = find_token(toks, next, "loop"@);
    let pos = after_section(toks, end);
    let body = toks.subrange(next, end);
    if body.len() == 0 {
        Turn { env: s, pos, verdict: Some(Err("Empty loop body"@)) }
    } else if s.stack.len() == 0 {
        Turn { env: s, pos, verdict: Some(Err("Empty stack for start of do loop"@)) }
    } else if s.stack.len() == 1 {
        Turn {
            env: ForthEnvView { stack: s.stack.drop_last(), ..s },
            pos,
            verdict: Some(Err("Empty stack for end of do loop"@)),
        }
    } else {
        let from = s.stack[s.stack.len() - 1];
        let to = s.stack[s.stack.len() - 2];
        let s2 = ForthEnvView { stack: s.stack.take(s.stack.len() - 2), ..s };
        if fuel == 0 {
            Turn { env: s2, pos, verdict: Some(Err(too_deep_text())) }
        } else {
            let ran = iterate_spec(s2, body, from as int, to as int, (fuel - 1) as nat);
            Turn {
                env: ForthEnvView { specials: table_del(ran.specials, "i"@), ..ran },
                pos,
                verdict: Some(Ok(())),
            }
        }
    }
}

/// The special forms. A token that is none of them gets no verdict.
pub open spec fn special_spec(s: ForthEnvView, toks: Seq<Name>, pos: int, fuel: nat) -> Turn
    decreases fuel, 3nat, 0nat,
{
    let start = toks[pos];
    let next = pos + 1;
    if start == ":"@ {
        match parse_function_spec(toks, next) {
            (Ok(f), p) => Turn {
                env: ForthEnvView {
                    funcs: table_put(s.funcs, f.0, f),
                    ..written(s, "Defined: "@ + func_text(f) + "\n"@)
                },
                pos: p,
                verdict: Some(Ok(())),
            },
            (Err(e), p) => Turn { env: s, pos: p, verdict: Some(Err(e)) },
        }
    } else if start == ".\""@ {
        match parse_string_spec(toks, next, Seq::empty()) {
            (Ok(msg), p) => Turn { env: written(s, msg), pos: p, verdict: Some(Ok(())) },
            (Err(e), p) => Turn { env: s, pos: p, verdict: Some(Err(e)) },
        }
    } else if start == "if"@ {
        conditional_spec(s, toks, next, fuel)
    } else if start == "@"@ {
        let (env, r) = variable_get_spec(s);
        Turn { env, pos: next, verdict: Some(r) }
    } else if start == "!"@ {
        let (env, r) = variable_set_spec(s);
        Turn { env, pos: next, verdict: Some(r) }
    } else if start == "variable"@ {
        intro_variable_spec(s, toks, next)
    } else if start == "constant"@ {
        intro_constant_spec(s, toks, next)
    } else if start == "cells"@ {
        let (env, r) = cells_spec(s);
        Turn { env, pos: next, verdict: Some(r) }
    } else if start == "allot"@ {
        let (env, r) = allot_spec(s);
        Turn { env, pos: next, verdict: Some(r) }
    } else if start == "do"@ {
        do_loop_spec(s, toks, next, fuel)
    } else if start == "+"@ {
        let (env, verdict) = set_array_slot_spec(s);
        Turn { env, pos: next, verdict }
    } else {
        Turn { env: s, pos: next, verdict: None }
    }
}

/// Whether the exec verdict `r` stands for the spec verdict `v`.
pub open spec fn same_verdict(r: Option<ForthResult<()>>, v: Verdict) -> bool {
    match v {
        None => r is None,
        Some(e) => r is Some && same_result(r->Some_0, e),
    }
}

/// The names of a table of built-in words, as specifications see them.
pub open spec fn builtins_view(entries: Seq<(String, Builtin)>) -> Seq<(Name, Builtin)> {
    entries.map_values(|e: (String, Builtin)| (e.0@, e.1))
}

/// The token at `i`, as specifications see it.
pub proof fn lemma_token(toks: &Vec<String>, i: int)
    requires
        0 <= i < toks@.len(),
    ensures
        toks.deep_view().len() == toks@.len(),
        toks.deep_view()[i] == toks@[i]@,
{
}

/// A copy of the tokens from `from` up to `to`.
pub fn copy_range(toks: &Vec<String>, from: usize, to: usize) -> (r: Vec<String>)
    requires
        from <= to <= toks@.len(),
    ensures
        r.deep_view() == toks.deep_view().subrange(from as int, to as int),
{
    let mut r: Vec<String> = Vec::new();
    let mut i: usize = from;
    assert(r.deep_view() =~= toks.deep_view().subrange(from as int, from as int));
    while i < to
        invariant
            from <= i <= to <= toks@.len(),
            r.deep_view() == toks.deep_view().subrange(from as int, i as int),
        decreases to - i,
    {
        let ghost before = r.deep_view();
        r.push(toks[i].clone());
        proof {
            lemma_token(toks, i as int);
            assert(r.deep_view() =~= before.push(toks@[i as int]@));
            assert(before.push(toks@[i as int]@) =~= toks.deep_view().subrange(
                from as int,
                i as int + 1,
            ));
        }
        i += 1;
    }
    r
}

/// The position of the first token at or after `from` that is `word`; see
/// [`find_token`].
pub fn find(toks: &Vec<String>, from: usize, word: &str) -> (r: usize)
    requires
        from <= toks@.len(),
    ensures
        r == find_token(toks.deep_view(), from as int, word@),
        from <= r <= toks@.len(),
{
    let mut i: usize = from;
    while i < toks.len()
        invariant
            from <= i <= toks@.len(),
            find_token(toks.deep_view(), from as int, word@) == find_token(
                toks.deep_view(),
                i as int,
                word@,
            ),
        decreases toks.len() - i,
    {
        proof {
            lemma_token(toks, i as int);
        }
        if same(toks[i].as_str(), word) {
            return i;
        }
        i += 1;
    }
    i
}

/// The tokens without those that are `word`; see [`without`].
pub fn remove_word(toks: &Vec<String>, word: &str) -> (r: Vec<String>)
    ensures
        r.deep_view() == without(toks.deep_view(), word@),
{
    let mut r: Vec<String> = Vec::new();
    let mut i: usize = 0;
    assert(r.deep_view() =~= Seq::<Name>::empty());
    assert(toks.deep_view().take(0) =~= Seq::<Name>::empty());
    while i < toks.len()
        invariant
            i <= toks@.len(),
            r.deep_view() == without(toks.deep_view().take(i as int), word@),
        decreases toks.len() - i,
    {
        proof {
            lemma_token(toks, i as int);
            let now = toks.deep_view().take(i as int + 1);
            assert(now.drop_last() =~= toks.deep_view().take(i as int));
            assert(now.last() == toks@[i as int]@);
        }
        if !same(toks[i].as_str(), word) {
            let ghost before = r.deep_view();
            r.push(toks[i].clone());
            assert(r.deep_view() =~= before.push(toks@[i as int]@));
        }
        i += 1;
    }
    assert(toks.deep_view().take(toks@.len() as int) =~= toks.deep_view());
    r
}

/// The interpreter: the table of its built-in words.
pub struct Interpreter {
    pub builtins: Vec<(String, Builtin)>,
}

impl Interpreter {
    /// The table holds the built-in words under their names.
    pub open spec fn wf(&self) -> bool {
        builtins_view(self.builtins@) == builtin_names()
    }

    /// An interpreter with the built-in words.
    pub fn new() -> (intr: Self)
        ensures
            intr.wf(),
    {
        let mut intr = Interpreter { builtins: Vec::new() };
        intr.init();
        intr
    }

    /// Fills the table with the built-in words.
    fn init(&mut self)
        requires
            old(self).builtins@.len() == 0,
        ensures
            final(self).wf(),
    {
        // Binary ops
        self.builtins.push(("+".to_owned(), Builtin::Add));
        self.builtins.push(("-".to_owned(), Builtin::Subtract));
        self.builtins.push(("*".to_owned(), Builtin::Mul));
        self.builtins.push(("/".to_owned(), Builtin::Div));
        self.builtins.push(("mod".to_owned(), Builtin::Modulus));
        self.builtins.push(("and".to_owned(), Builtin::And));
        self.builtins.push(("or".to_owned(), Builtin::Or));
        // Core ops
        self.builtins.push(("p".to_owned(), Builtin::PrintStack));
        self.builtins.push(("d".to_owned(), Builtin::PrintFunc));
        self.builtins.push(("v".to_owned(), Builtin::PrintVars));
        self.builtins.push(("dup".to_owned(), Builtin::Dup));
        self.builtins.push((".".to_owned(), Builtin::Pop));
        self.builtins.push(("drop".to_owned(), Builtin::Drop));
        self.builtins.push(("swap".to_owned(), Builtin::Swap));
        self.builtins.push(("over".to_owned(), Builtin::Over));
        self.builtins.push(("rot".to_owned(), Builtin::Rot));
        self.builtins.push(("emit".to_owned(), Builtin::Emit));
        self.builtins.push(("cr".to_owned(), Builtin::Cr));
        // Boolean ops
        self.builtins.push(("=".to_owned(), Builtin::Eq));
        self.builtins.push(("!=".to_owned(), Builtin::NotEq));
        self.builtins.push(("<".to_owned(), Builtin::Lt));
        self.builtins.push((">".to_owned(), Builtin::Gt));
        self.builtins.push(("<=".to_owned(), Builtin::LtEq));
        self.builtins.push((">=".to_owned(), Builtin::GtEq));
        self.builtins.push(("invert".to_owned(), Builtin::Invert));
        assert(builtins_view(self.builtins@) =~= builtin_names());
    }

    /// Evaluates a line: its tokens are evaluated, and the end of the line
    /// is written. See [`eval_toks_spec`].
    pub fn eval(&self, env: &mut ForthEnv, expr: &str)
        requires
            self.wf(),
            old(env).wf(),
        ensures
            final(env).wf(),
            final(env)@ == eval_toks_spec(
                old(env)@,
                tokens_spec(expr@),
                0,
                NESTING_LIMIT as nat,
            ),
    {
        let toks = tokens(expr);
        self.eval_toks(env, &toks, NESTING_LIMIT);
    }

    /// The built-in word called `op`, run on the environment.
    fn eval_builtin(&self, op: &str, env: &mut ForthEnv) -> (r: Option<ForthResult<()>>)
        requires
            self.wf(),
        ensures
            final(env).wf() == old(env).wf(),
            match table_get(builtin_names(), op@) {
                None => r is None && final(env)@ == old(env)@,
                Some(b) => r is Some && ops::done(
                    *final(env),
                    r->Some_0,
                    builtin_effect(b, old(env)@),
                ),
            },
    {
        let ghost view = builtins_view(self.builtins@);
        let mut i: usize = 0;
        while i < self.builtins.len()
            invariant
                i <= self.builtins@.len(),
                view == builtins_view(self.builtins@),
                view == builtin_names(),
                *env == *old(env),
                forall|j: int| 0 <= j < i ==> (#[trigger] view[j]).0 != op@,
            decreases self.builtins.len() - i,
        {
            if same(self.builtins[i].0.as_str(), op) {
                proof {
                    lemma_find_key_at(view, op@, i as int);
                }
                let b = self.builtins[i].1;
                return Some(run_builtin(b, env));
            }
            i += 1;
        }
        proof {
            lemma_find_key_none(view, op@);
        }
        None
    }

    /// A defined word; see [`function_spec`].
    fn eval_function(&self, name: &str, env: &mut ForthEnv, fuel: u32) -> (r: Option<
        ForthResult<()>,
    >)
        requires
            self.wf(),
            old(env).wf(),
        ensures
            final(env).wf(),
            final(env)@ == function_spec(old(env)@, name@, fuel as nat).0,
            same_verdict(r, function_spec(old(env)@, name@, fuel as nat).1),
        decreases fuel, 2nat, 0nat,
    {
        match env.get_function(name) {
            Some(func) => {
                if fuel == 0 {
                    Some(Err("Evaluation too deep".to_owned()))
                } else {
                    self.eval_toks(env, &func.1, fuel - 1);
                    Some(Ok(()))
                }
            },
            None => None,
        }
    }

    /// The foreign word `rs+`; see [`ffi_spec`].
    fn eval_ffi(&self, name: &str, env: &mut ForthEnv) -> (r: Option<ForthResult<()>>)
        ensures
            final(env).wf() == old(env).wf(),
            final(env)@ == ffi_spec(old(env)@, name@).0,
            same_verdict(r, ffi_spec(old(env)@, name@).1),
    {
        if same(name, "rs+") {
            let ghost before = env@.stack;
            let a = env.pop("ffi".to_owned());
            let b = env.pop("ffi".to_owned());
            match (a, b) {
                (Ok(a), Ok(b)) => {
                    proof {
                        assert(before.drop_last().drop_last() =~= before.take(before.len() - 2));
                    }
                    env.push(rs_add(a, b));
                    Some(Ok(()))
                },
                _ => {
                    proof {
                        if before.len() == 1 {
                            assert(before.drop_last() =~= before.take(0));
                        } else {
                            assert(before =~= before.take(0));
                        }
                    }
                    None
                },
            }
        } else {
            None
        }
    }

    /// A token that is a number, a constant or a variable; see
    /// [`plain_token_spec`].
    fn eval_plain(&self, tok: &str, env: &mut ForthEnv) -> (go: bool)
        ensures
            final(env).wf() == old(env).wf(),
            (final(env)@, go) == plain_token_spec(old(env)@, tok@),
    {
        self.eval_number_or_name(tok, parse_i32(tok), env)
    }

    /// A token of which it is known what number it stands for, if any; see
    /// [`number_or_name_spec`].
    pub fn eval_number_or_name(
        &self,
        tok: &str,
        parsed: Option<i32>,
        env: &mut ForthEnv,
    ) -> (go: bool)
        ensures
            final(env).wf() == old(env).wf(),
            (final(env)@, go) == number_or_name_spec(old(env)@, tok@, parsed),
    {
        match parsed {
            Some(num) => {
                env.push(num);
                true
            },
            None => match self.eval_constant(tok, env) {
                Some(_) => true,
                None => match self.eval_variable(tok, env) {
                    Some(_) => true,
                    None => {
                        let line = join3("Invalid token: ", tok, "\n");
                        env.write(line.as_str());
                        false
                    },
                },
            },
        }
    }

    /// A variable: a reference to it is pushed.
    fn eval_variable(&self, name: &str, env: &mut ForthEnv) -> (r: Option<ForthResult<()>>)
        ensures
            final(env).wf() == old(env).wf(),
            match table_get(old(env)@.vars, name@) {
                Some(ForthVarView::Var(_)) => r == Some(Ok::<(), String>(())) && final(env)@ == (
                    ForthEnvView {
                        var_refs: old(env)@.var_refs.push(VarRefView::Var(name@)),
                        ..old(env)@
                    }),
                Some(ForthVarView::Array(_)) => r == Some(Ok::<(), String>(())) && final(env)@ == (
                    ForthEnvView {
                        var_refs: old(env)@.var_refs.push(VarRefView::Array(name@, 0)),
                        ..old(env)@
                    }),
                None => r is None && final(env)@ == old(env)@,
            },
    {
        match env.get_variable(name) {
            Some(var) => {
                match var {
                    ForthVar::Var(_) => env.push_variable_ref(VarRef::Var(name.to_owned())),
                    ForthVar::Array(_) => env.push_variable_ref(VarRef::Array(name.to_owned(), 0)),
                };
                Some(Ok(()))
            },
            None => None,
        }
    }

    /// A constant: its value is pushed.
    fn eval_constant(&self, name: &str, env: &mut ForthEnv) -> (r: Option<ForthResult<()>>)
        ensures
            final(env).wf() == old(env).wf(),
            match table_get(old(env)@.constants, name@) {
                Some(x) => r == Some(Ok::<(), String>(())) && final(env)@ == (ForthEnvView {
                    stack: old(env)@.stack.push(x),
                    ..old(env)@
                }),
                None => r is None && final(env)@ == old(env)@,
            },
    {
        match env.get_constant(name) {
            Some(x) => {
                env.push(x);
                Some(Ok(()))
            },
            None => None,
        }
    }

    /// A special variable: its value is pushed.
    fn eval_special_variables(&self, name: &str, env: &mut ForthEnv) -> (r: bool)
        ensures
            final(env).wf() == old(env).wf(),
            match table_get(old(env)@.specials, name@) {
                Some(v) => r && final(env)@ == (ForthEnvView {
                    stack: old(env)@.stack.push(v),
                    ..old(env)@
                }),
                None => !r && final(env)@ == old(env)@,
            },
    {
        match env.get_special(name) {
            Some(val) => {
                env.push(val);
                true
            },
            None => false,
        }
    }

    /// Evaluates the tokens, then writes the end of the line; see
    /// [`eval_toks_spec`].
    pub fn eval_toks(&self, env: &mut ForthEnv, toks: &Vec<String>, fuel: u32)
        requires
            self.wf(),
            old(env).wf(),
        ensures
            final(env).wf(),
            final(env)@ == eval_toks_spec(old(env)@, toks.deep_view(), 0, fuel as nat),
        decreases fuel, 5nat, 0nat,
    {
        let ghost tv = toks.deep_view();
        let mut pos: usize = 0;
        let mut going = true;
        while going && pos < toks.len()
            invariant
                self.wf(),
                env.wf(),
                pos <= toks@.len(),
                tv == toks.deep_view(),
                tv.len() == toks@.len(),
                going ==> eval_toks_spec(old(env)@, tv, 0, fuel as nat) == eval_toks_spec(
                    env@,
                    tv,
                    pos as int,
                    fuel as nat,
                ),
                !going ==> eval_toks_spec(old(env)@, tv, 0, fuel as nat) == finished(env@),
            decreases toks.len() - pos + (if going { 1int } else { 0int }),
        {
            proof {
                lemma_token(toks, pos as int);
            }
            let trimmed = trim(toks[pos].as_str());
            if trimmed.as_str().unicode_len() == 0 {
                pos += 1;
            } else {
                let (next, go) = self.eval_token(env, toks, pos, fuel);
                if go {
                    pos = next;
                } else {
                    going = false;
                }
            }
        }
        let ghost last = env@;
        env.write("=> ");
        env.print_stack();
        proof {
            let line = list_text(decimal_texts(last.stack)) + "\n"@;
            assert((last.output + "=> "@) + line =~= last.output + ("=> "@ + line));
        }
    }

    /// Evaluates the token at `pos`; see [`token_spec`].
    fn eval_token(&self, env: &mut ForthEnv, toks: &Vec<String>, pos: usize, fuel: u32) -> (r: (
        usize,
        bool,
    ))
        requires
            self.wf(),
            old(env).wf(),
            pos < toks.len(),
        ensures
            final(env).wf(),
            pos < r.0 <= toks@.len(),
            (final(env)@, r.0 as int, r.1) == token_spec(
                old(env)@,
                toks.deep_view(),
                pos as int,
                fuel as nat,
            ),
        decreases fuel, 4nat, 0nat,
    {
        proof {
            lemma_token(toks, pos as int);
        }
        let tok = toks[pos].as_str();
        let (next, verdict) = self.eval_special_forms(env, toks, pos, fuel);
        match verdict {
            Some(Ok(_)) => {
                return (next, true);
            },
            Some(Err(e)) => {
                let line = join3("Error: ", e.as_str(), "\n");
                env.write(line.as_str());
                return (next, false);
            },
            None => {},
        }
        if self.eval_special_variables(tok, env) {
            return (next, true);
        }
        match self.eval_builtin(tok, env) {
            Some(Ok(_)) => {
                return (next, true);
            },
            Some(Err(e)) => {
                let line = join3("Error: ", e.as_str(), "\n");
                env.write(line.as_str());
                return (next, false);
            },
            None => {},
        }
        match self.eval_function(tok, env, fuel) {
            Some(Ok(_)) => {
                return (next, true);
            },
            Some(Err(e)) => {
                let line = join3("Error: ", e.as_str(), "\n");
                env.write(line.as_str());
                return (next, false);
            },
            None => {},
        }
        match self.eval_ffi(tok, env) {
            Some(Ok(_)) => {
                return (next, true);
            },
            Some(Err(e)) => {
                let line = join3("Error: ", e.as_str(), "\n");
                env.write(line.as_str());
                return (next, false);
            },
            None => {},
        }
        let go = self.eval_plain(tok, env);
        (next, go)
    }

    /// The definition that starts at `pos`; see [`parse_function_spec`].
    fn parse_function(&self, toks: &Vec<String>, pos: usize) -> (r: (ForthResult<ForthFunc>, usize))
        requires
            pos <= toks@.len(),
        ensures
            pos <= r.1 <= toks@.len(),
            r.1 == parse_function_spec(toks.deep_view(), pos as int).1,
            match parse_function_spec(toks.deep_view(), pos as int).0 {
                Ok(f) => r.0 is Ok && r.0->Ok_0.deep_view() == f,
                Err(e) => r.0 is Err && r.0->Err_0@ == e,
            },
    {
        if pos >= toks.len() {
            return (Err("Invalid function".to_owned()), pos);
        }
        proof {
            lemma_token(toks, pos as int);
        }
        let name = toks[pos].as_str();
        if !valid_forth_name(name) {
            return (Err(join("Invalid name for function: ", name)), pos + 1);
        }
        let end = find(toks, pos + 1, ";");
        if end >= toks.len() {
            return (Err("Invalid function".to_owned()), toks.len());
        }
        let definition = copy_range(toks, pos + 1, end);
        (Ok((name.to_owned(), definition)), end + 1)
    }

    /// The text that starts at `pos`; see [`parse_string_spec`].
    fn parse_string(&self, toks: &Vec<String>, pos: usize) -> (r: (ForthResult<String>, usize))
        requires
            pos <= toks@.len(),
        ensures
            pos <= r.1 <= toks@.len(),
            r.1 == parse_string_spec(toks.deep_view(), pos as int, Seq::empty()).1,
            match parse_string_spec(toks.deep_view(), pos as int, Seq::empty()).0 {
                Ok(text) => r.0 is Ok && r.0->Ok_0@ == text,
                Err(e) => r.0 is Err && r.0->Err_0@ == e,
            },
    {
        let mut msg = String::new();
        let mut i: usize = pos;
        while i < toks.len()
            invariant
                pos <= i <= toks@.len(),
                parse_string_spec(toks.deep_view(), pos as int, Seq::empty()) == parse_string_spec(
                    toks.deep_view(),
                    i as int,
                    msg@,
                ),
            decreases toks.len() - i,
        {
            proof {
                lemma_token(toks, i as int);
            }
            let m = toks[i].as_str();
            if same(m, "\"") {
                return (Ok(msg), i + 1);
            }
            let n = m.unicode_len();
            if n > 0 && m.get_char(n - 1) == '"' {
                vstd::string::StringExecFns::append(&mut msg, m.substring_char(0, n - 1));
                return (Ok(msg), i + 1);
            }
            let piece = join(m, " ");
            vstd::string::StringExecFns::append(&mut msg, piece.as_str());
            i += 1;
        }
        (Err("Nonterminated string".to_owned()), i)
    }

    /// `if`; see [`conditional_spec`].
    #[verifier::rlimit(60)]
    fn eval_conditional(&self, env: &mut ForthEnv, toks: &Vec<String>, next: usize, fuel: u32) -> (r: (
        usize,
        ForthResult<()>,
    ))
        requires
            self.wf(),
            old(env).wf(),
            next <= toks@.len(),
        ensures
            final(env).wf(),
            next <= r.0 <= toks@.len(),
            ({
                let t = conditional_spec(old(env)@, toks.deep_view(), next as int, fuel as nat);
                final(env)@ == t.env && r.0 == t.pos && same_verdict(Some(r.1), t.verdict)
            }),
        decreases fuel, 2nat, 0nat,
    {
        let res = match env.pop("Empty stack for condition in if".to_owned()) {
            Err(e) => {
                return (next, Err(e));
            },
            Ok(res) => res,
        };
        let end = find(toks, next, "then");
        let pos = if end < toks.len() {
            end + 1
        } else {
            toks.len()
        };
        let section = copy_range(toks, next, end);
        proof {
            assert(section.deep_view().len() == section@.len());
        }
        let k = find(&section, 0, "else");
        let before_else = copy_range(&section, 0, k);
        let found_else = k < section.len();
        let after_else = if found_else {
            let tail = copy_range(&section, k + 1, section.len());
            remove_word(&tail, "else")
        } else {
            Vec::new()
        };
        proof {
            assert(before_else.deep_view().len() == before_else@.len());
            assert(after_else.deep_view().len() == after_else@.len());
            if !found_else {
                assert(after_else.deep_view() =~= Seq::<Name>::empty());
            }
        }
        if before_else.len() == 0 {
            return (pos, Err("Empty statement for then clause".to_owned()));
        }
        if found_else && after_else.len() == 0 {
            return (pos, Err("Empty statement for then clause after else".to_owned()));
        }
        if fuel == 0 {
            return (pos, Err("Evaluation too deep".to_owned()));
        }
        if res == 0 {
            self.eval_toks(env, &after_else, fuel - 1);
        } else {
            self.eval_toks(env, &before_else, fuel - 1);
        }
        (pos, Ok(()))
    }

    /// `+` on a reference to an array; see [`set_array_slot_spec`].
    fn eval_set_array_slot(&self, env: &mut ForthEnv) -> (r: Option<ForthResult<()>>)
        ensures
            final(env).wf() == old(env).wf(),
            final(env)@ == set_array_slot_spec(old(env)@).0,
            same_verdict(r, set_array_slot_spec(old(env)@).1),
    {
        match env.top_variable_ref() {
            Some(variable) => match variable {
                VarRef::Var(name) => Some(
                    Err(join("Cannot set slot on normal variable: ", name.as_str())),
                ),
                VarRef::Array(name, _) => {
                    match env.pop("Stack empty to set slot value for array".to_owned()) {
                        Ok(pos) => {
                            let _ = env.pop_variable_ref();
                            env.push_variable_ref(VarRef::Array(name, pos));
                            Some(Ok(()))
                        },
                        Err(e) => Some(Err(e)),
                    }
                },
            },
            None => None,
        }
    }

    /// `allot`; see [`allot_spec`].
    fn eval_allot(&self, env: &mut ForthEnv) -> (r: ForthResult<()>)
        requires
            old(env).wf(),
        ensures
            final(env).wf(),
            ops::done(*final(env), r, allot_spec(old(env)@)),
    {
        match env.pop_variable_ref() {
            Some(VarRef::Var(name)) => {
                let length = match env.pop("Stack empty to allot array".to_owned()) {
                    Err(e) => {
                        return Err(e);
                    },
                    Ok(length) => length,
                };
                env.allot_array(name.as_str(), length);
                Ok(())
            },
            Some(VarRef::Array(name, _)) => Err(join(name.as_str(), " is already an array")),
            None => Err("No variable found to allocate as an array!".to_owned()),
        }
    }

    /// `cells`; see [`cells_spec`].
    fn eval_cells(&self, env: &mut ForthEnv) -> (r: ForthResult<()>)
        ensures
            final(env).wf() == old(env).wf(),
            ops::done(*final(env), r, cells_spec(old(env)@)),
    {
        // Nothing is to be done but to see that the stack is not empty.
        match env.top("Empty stack to evaluate cells".to_owned()) {
            Err(e) => Err(e),
            Ok(_) => Ok(()),
        }
    }

    /// `variable`; see [`intro_variable_spec`].
    fn eval_intro_variable(&self, env: &mut ForthEnv, toks: &Vec<String>, next: usize) -> (r: (
        usize,
        ForthResult<()>,
    ))
        requires
            old(env).wf(),
            next <= toks@.len(),
        ensures
            final(env).wf(),
            next <= r.0 <= toks@.len(),
            ({
                let t = intro_variable_spec(old(env)@, toks.deep_view(), next as int);
                final(env)@ == t.env && r.0 == t.pos && same_verdict(Some(r.1), t.verdict)
            }),
    {
        if next < toks.len() {
            proof {
                lemma_token(toks, next as int);
            }
            let var_name = toks[next].as_str();
            if valid_forth_name(var_name) {
                let _ = env.add_variable(var_name, ForthVar::Var(0));
                env.push_variable_ref(VarRef::Var(var_name.to_owned()));
                (next + 1, Ok(()))
            } else {
                (next + 1, Err(join("Invalid variable name: ", var_name)))
            }
        } else {
            (next, Err("Variable name not found".to_owned()))
        }
    }

    /// `do`; see [`do_loop_spec`].
    fn eval_do_loop(&self, env: &mut ForthEnv, toks: &Vec<String>, next: usize, fuel: u32) -> (r: (
        usize,
        ForthResult<()>,
    ))
        requires
            self.wf(),
            old(env).wf(),
            next <= toks@.len(),
        ensures
            final(env).wf(),
            next <= r.0 <= toks@.len(),
            ({
                let t = do_loop_spec(old(env)@, toks.deep_view(), next as int, fuel as nat);
                final(env)@ == t.env && r.0 == t.pos && same_verdict(Some(r.1), t.verdict)
            }),
        decreases fuel, 2nat, 0nat,
    {
        let end = find(toks, next, "loop");
        let pos = if end < toks.len() {
            end + 1
        } else {
            toks.len()
        };
        let loop_body = copy_range(toks, next, end);
        proof {
            assert(loop_body.deep_view().len() == loop_body@.len());
        }
        if loop_body.len() == 0 {
            return (pos, Err("Empty loop body".to_owned()));
        }
        let ghost before = env@.stack;
        let start = match env.pop("Empty stack for start of do loop".to_owned()) {
            Err(e) => {
                return (pos, Err(e));
            },
            Ok(v) => v,
        };
        let end_value = match env.pop("Empty stack for end of do loop".to_owned()) {
            Err(e) => {
                return (pos, Err(e));
            },
            Ok(v) => v,
        };
        proof {
            assert(before.drop_last().drop_last() =~= before.take(before.len() - 2));
        }
        if fuel == 0 {
            return (pos, Err("Evaluation too deep".to_owned()));
        }
        let ghost prepared = env@;
        let mut i: i32 = start;
        while i < end_value
            invariant
                self.wf(),
                env.wf(),
                fuel > 0,
                start <= i || start >= end_value,
                i <= end_value || start >= end_value,
                iterate_spec(
                    prepared,
                    loop_body.deep_view(),
                    start as int,
                    end_value as int,
                    (fuel - 1) as nat,
                ) == iterate_spec(
                    env@,
                    loop_body.deep_view(),
                    i as int,
                    end_value as int,
                    (fuel - 1) as nat,
                ),
            decreases end_value - i,
        {
            let _ = env.set_special("i", i);
            self.eval_toks(env, &loop_body, fuel - 1);
            i += 1;
        }
        let _ = env.clear_special("i");
        (pos, Ok(()))
    }

    /// `constant`; see [`intro_constant_spec`].
    fn eval_intro_constant(&self, env: &mut ForthEnv, toks: &Vec<String>, next: usize) -> (r: (
        usize,
        ForthResult<()>,
    ))
        requires
            old(env).wf(),
            next <= toks@.len(),
        ensures
            final(env).wf(),
            next <= r.0 <= toks@.len(),
            ({
                let t = intro_constant_spec(old(env)@, toks.deep_view(), next as int);
                final(env)@ == t.env && r.0 == t.pos && same_verdict(Some(r.1), t.verdict)
            }),
    {
        if next < toks.len() {
            proof {
                lemma_token(toks, next as int);
            }
            let const_name = toks[next].as_str();
            let x = match env.pop(join("Stack empty to set constant ", const_name)) {
                Err(e) => {
                    return (next + 1, Err(e));
                },
                Ok(x) => x,
            };
            let _ = env.add_constant(const_name, x);
            (next + 1, Ok(()))
        } else {
            (next, Err("Variable name not found".to_owned()))
        }
    }

    /// `!`; see [`variable_set_spec`].
    fn eval_variable_set(&self, env: &mut ForthEnv) -> (r: ForthResult<()>)
        requires
            old(env).wf(),
        ensures
            final(env).wf(),
            ops::done(*final(env), r, variable_set_spec(old(env)@)),
    {
        match env.pop_variable_ref() {
            Some(var) => match var {
                VarRef::Var(var_name) => {
                    let x = match env.pop("Stack empty to set variable value".to_owned()) {
                        Err(e) => {
                            return Err(e);
                        },
                        Ok(x) => x,
                    };
                    match env.add_variable(var_name.as_str(), ForthVar::Var(x)) {
                        Some(_) => Ok(()),
                        None => Err(join("No such variable: ", var_name.as_str())),
                    }
                },
                VarRef::Array(var_name, pos) => {
                    let x = match env.pop("Stack empty to set array value".to_owned()) {
                        Err(e) => {
                            return Err(e);
                        },
                        Ok(x) => x,
                    };
                    if env.get_variable(var_name.as_str()).is_some() {
                        match env.array_set(var_name.as_str(), pos, x) {
                            Ok(_) => Ok(()),
                            Err(e) => {
                                let head = join3(
                                    "Setting array ",
                                    var_name.as_str(),
                                    " value failed because: ",
                                );
                                Err(join(head.as_str(), e.as_str()))
                            },
                        }
                    } else {
                        Err(join("No such array: ", var_name.as_str()))
                    }
                },
            },
            None => Err("No variable reference found to set value".to_owned()),
        }
    }

    /// `@`; see [`variable_get_spec`].
    fn eval_variable_get(&self, env: &mut ForthEnv) -> (r: ForthResult<()>)
        requires
            old(env).wf(),
        ensures
            final(env).wf(),
            ops::done(*final(env), r, variable_get_spec(old(env)@)),
    {
        match env.pop_variable_ref() {
            Some(VarRef::Var(var_name)) => match env.get_variable(var_name.as_str()) {
                Some(ForthVar::Var(num)) => {
                    env.push(num);
                    Ok(())
                },
                Some(ForthVar::Array(_)) => Err(
                    join(
                        "Unexpected array found when variable expected with name ",
                        var_name.as_str(),
                    ),
                ),
                None => Err(join("No such variable: ", var_name.as_str())),
            },
            Some(VarRef::Array(var_name, pos)) => match env.get_variable(var_name.as_str()) {
                None => Err(join("No such array: ", var_name.as_str())),
                Some(ForthVar::Var(_)) => Err(
                    join(
                        "Unexpected variable found when array expected with name ",
                        var_name.as_str(),
                    ),
                ),
                Some(ForthVar::Array(arr)) => {
                    if pos >= 0 && (pos as usize) < arr.len() {
                        let x = arr[pos as usize];
                        env.push(x);
                        Ok(())
                    } else {
                        let at = int_to_string(pos as i128);
                        let len = int_to_string(arr.len() as i128);
                        let head = join3(
                            "Cannot get at position: ",
                            at.as_str(),
                            " when array length is: ",
                        );
                        Err(join(head.as_str(), len.as_str()))
                    }
                },
            },
            None => Err("No variable reference found to set value".to_owned()),
        }
    }

    /// The special forms; see [`special_spec`].
    #[verifier::rlimit(60)]
    fn eval_special_forms(&self, env: &mut ForthEnv, toks: &Vec<String>, pos: usize, fuel: u32) -> (r: (
        usize,
        Option<ForthResult<()>>,
    ))
        requires
            self.wf(),
            old(env).wf(),
            pos < toks.len(),
        ensures
            final(env).wf(),
            pos < r.0 <= toks@.len(),
            ({
                let t = special_spec(old(env)@, toks.deep_view(), pos as int, fuel as nat);
                final(env)@ == t.env && r.0 == t.pos && same_verdict(r.1, t.verdict)
            }),
        decreases fuel, 3nat, 0nat,
    {
        proof {
            lemma_token(toks, pos as int);
        }
        let start = toks[pos].as_str();
        let next = pos + 1;
        // Definitions of words
        if same(start, ":") {
            let (parsed, p) = self.parse_function(toks, next);
            return match parsed {
                Ok(func) => {
                    let text = func_to_text(&func);
                    let line = join3("Defined: ", text.as_str(), "\n");
                    env.write(line.as_str());
                    let fname = func.0.clone();
                    let _ = env.add_function(fname.as_str(), func);
                    (p, Some(Ok(())))
                },
                Err(e) => (p, Some(Err(e))),
            };
        }
        // Text to write
        if same(start, ".\"") {
            let (parsed, p) = self.parse_string(toks, next);
            return match parsed {
                Ok(msg) => {
                    env.write(msg.as_str());
                    (p, Some(Ok(())))
                },
                Err(e) => (p, Some(Err(e))),
            };
        }
        if same(start, "if") {
            let (p, r) = self.eval_conditional(env, toks, next, fuel);
            return (p, Some(r));
        }
        if same(start, "@") {
            return (next, Some(self.eval_variable_get(env)));
        }
        if same(start, "!") {
            return (next, Some(self.eval_variable_set(env)));
        }
        if same(start, "variable") {
            let (p, r) = self.eval_intro_variable(env, toks, next);
            return (p, Some(r));
        }
        if same(start, "constant") {
            let (p, r) = self.eval_intro_constant(env, toks, next);
            return (p, Some(r));
        }
        if same(start, "cells") {
            return (next, Some(self.eval_cells(env)));
        }
        if same(start, "allot") {
            return (next, Some(self.eval_allot(env)));
        }
        if same(start, "do") {
            let (p, r) = self.eval_do_loop(env, toks, next, fuel);
            return (p, Some(r));
        }
        if same(start, "+") {
            return (next, self.eval_set_array_slot(env));
        }
        (next, None)
    }
}

} // verus!
