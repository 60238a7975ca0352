//! The built-in words of the word interpreter that work on the stack alone.
//!
//! A word takes its operands off the top of the stack, the topmost first,
//! and puts its result there. A word that finds the stack too short fails
//! with a message; what it took off by then stays off.

use crate::forth::cell_data::{trunc_div, trunc_rem, wrap_i32};
use crate::forth::env::{
    func_entries, table_text, var_entries, written, ForthEnv, ForthEnvView, ForthResult,
};
use crate::forth::text::{char_text, decimal_text, decimal_texts, int_to_string, join, list_text};
use vstd::prelude::*;

verus! {

/// The message of a word that divides by zero.
pub open spec fn division_by_zero_text() -> Seq<char> {
    "Division by zero"@
}

/// What taking two operands for the word `name` gives: the stack below them
/// with the top operand and the one below it, or the stack that is left with
/// the message.
pub open spec fn operands_spec(stack: Seq<i32>, name: Seq<char>) -> Result<
    (Seq<i32>, i32, i32),
    (Seq<i32>, Seq<char>),
> {
    if stack.len() == 0 {
        Err((stack, "Empty stack: for first argument for "@ + name))
    } else if stack.len() == 1 {
        Err((stack.drop_last(), "Empty stack: for second argument for "@ + name))
    } else {
        Ok((stack.take(stack.len() - 2), stack[stack.len() - 1], stack[stack.len() - 2]))
    }
}

/// What a word does that takes the operands `x`, from the top, and `y`, from
/// below it, and puts `f(x, y)` back, where `f` may fail with a message.
pub open spec fn binary_spec(
    s: ForthEnvView,
    name: Seq<char>,
    f: spec_fn(i32, i32) -> Result<i32, Seq<char>>,
) -> (ForthEnvView, Result<(), Seq<char>>) {
    match operands_spec(s.stack, name) {
        Err((stack, text)) => (ForthEnvView { stack, ..s }, Err(text)),
        Ok((rest, x, y)) => match f(x, y) {
            Ok(v) => (ForthEnvView { stack: rest.push(v), ..s }, Ok(())),
            Err(text) => (ForthEnvView { stack: rest, ..s }, Err(text)),
        },
    }
}

/// Whether the exec result `r` stands for the spec result `expected`.
pub open spec fn same_result(r: ForthResult<()>, expected: Result<(), Seq<char>>) -> bool {
    match expected {
        Ok(_) => r is Ok,
        Err(text) => r is Err && r->Err_0@ == text,
    }
}

/// What a word does: the environment after it, and whether it succeeded,
/// with the message if it did not.
pub type Effect = (ForthEnvView, Result<(), Seq<char>>);

/// Whether the environment `after` and the result `r` are what `effect` says.
pub open spec fn done(after: ForthEnv, r: ForthResult<()>, effect: Effect) -> bool {
    after@ == effect.0 && same_result(r, effect.1)
}

/// The number that stands for a truth value: -1 for true, 0 for false.
pub open spec fn flag(b: bool) -> i32 {
    if b {
        (-1) as i32
    } else {
        0
    }
}

/// Takes two operands for the word `name`; see [`operands_spec`].
fn operands(name: &str, env: &mut ForthEnv) -> (r: ForthResult<(i32, i32)>)
    ensures
        final(env).wf() == old(env).wf(),
        match operands_spec(old(env)@.stack, name@) {
            Ok((rest, x, y)) => r == Ok::<(i32, i32), String>((x, y)) && final(env)@ == (
                ForthEnvView { stack: rest, ..old(env)@ }),
            Err((stack, text)) => r is Err && r->Err_0@ == text && final(env)@ == (ForthEnvView {
                stack,
                ..old(env)@
            }),
        },
{
    let ghost before = env@.stack;
    let x = match env.pop(join("Empty stack: for first argument for ", name)) {
        Err(e) => {
            return Err(e);
        },
        Ok(x) => x,
    };
    let y = match env.pop(join("Empty stack: for second argument for ", name)) {
        Err(e) => {
            return Err(e);
        },
        Ok(y) => y,
    };
    proof {
        assert(before.drop_last().drop_last() =~= before.take(before.len() - 2));
    }
    Ok((x, y))
}

/// `+`: the sum, wrapping.
pub fn add(env: &mut ForthEnv) -> (r: ForthResult<()>)
    ensures
        final(env).wf() == old(env).wf(),
        done(*final(env), r, add_spec(old(env)@)),
{
    match operands("+", env) {
        Err(e) => Err(e),
        Ok((x, y)) => {
            env.push(wrapping_sum(x, y));
            Ok(())
        },
    }
}

/// `-`: the lower operand less the top one, wrapping.
pub fn subtract(env: &mut ForthEnv) -> (r: ForthResult<()>)
    ensures
        final(env).wf() == old(env).wf(),
        done(*final(env), r, subtract_spec(old(env)@)),
{
    match operands("-", env) {
        Err(e) => Err(e),
        Ok((x, y)) => {
            env.push(wrapping_difference(y, x));
            Ok(())
        },
    }
}

/// `*`: the product, wrapping.
pub fn mul(env: &mut ForthEnv) -> (r: ForthResult<()>)
    ensures
        final(env).wf() == old(env).wf(),
        done(*final(env), r, mul_spec(old(env)@)),
{
    match operands("*", env) {
        Err(e) => Err(e),
        Ok((x, y)) => {
            env.push(wrapping_product(x, y));
            Ok(())
        },
    }
}

/// The quotient of `y` by `x`, rounded towards zero and wrapped; a message
/// for a zero divisor.
pub open spec fn quotient_spec(x: i32, y: i32) -> Result<i32, Seq<char>> {
    if x == 0 {
        Err(division_by_zero_text())
    } else {
        Ok(wrap_i32(trunc_div(y as int, x as int)))
    }
}

/// The remainder of `y` by `x`, with the sign of `y`; a message for a zero
/// divisor.
pub open spec fn remainder_spec(x: i32, y: i32) -> Result<i32, Seq<char>> {
    if x == 0 {
        Err(division_by_zero_text())
    } else {
        Ok(trunc_rem(y as int, x as int) as i32)
    }
}

/// `/`: the lower operand divided by the top one; fails for a zero divisor.
pub fn div(env: &mut ForthEnv) -> (r: ForthResult<()>)
    ensures
        final(env).wf() == old(env).wf(),
        done(*final(env), r, div_spec(old(env)@)),
{
    match operands("/", env) {
        Err(e) => Err(e),
        Ok((x, y)) => {
            if x == 0 {
                Err("Division by zero".to_owned())
            } else {
                env.push(quotient(y, x));
                Ok(())
            }
        },
    }
}

/// `mod`: the remainder of the lower operand by the top one; fails for a
/// zero divisor.
pub fn modulus(env: &mut ForthEnv) -> (r: ForthResult<()>)
    ensures
        final(env).wf() == old(env).wf(),
        done(*final(env), r, modulus_spec(old(env)@)),
{
    match operands("mod", env) {
        Err(e) => Err(e),
        Ok((x, y)) => {
            if x == 0 {
                Err("Division by zero".to_owned())
            } else {
                env.push(remainder(y, x));
                Ok(())
            }
        },
    }
}

/// `and`: the bitwise and.
pub fn and(env: &mut ForthEnv) -> (r: ForthResult<()>)
    ensures
        final(env).wf() == old(env).wf(),
        done(*final(env), r, and_spec(old(env)@)),
{
    match operands("and", env) {
        Err(e) => Err(e),
        Ok((x, y)) => {
            env.push(y & x);
            Ok(())
        },
    }
}

/// `or`: the bitwise or.
pub fn or(env: &mut ForthEnv) -> (r: ForthResult<()>)
    ensures
        final(env).wf() == old(env).wf(),
        done(*final(env), r, or_spec(old(env)@)),
{
    match operands("or", env) {
        Err(e) => Err(e),
        Ok((x, y)) => {
            env.push(y | x);
            Ok(())
        },
    }
}

/// The sum of two numbers, wrapping.
pub fn wrapping_sum(a: i32, b: i32) -> (r: i32)
    ensures
        r == wrap_i32(a + b),
{
    let wide: i64 = a as i64 + b as i64;
    narrow(wide)
}

/// The difference of two numbers, wrapping.
pub fn wrapping_difference(a: i32, b: i32) -> (r: i32)
    ensures
        r == wrap_i32(a - b),
{
    let wide: i64 = a as i64 - b as i64;
    narrow(wide)
}

/// A number of at most 33 bits reduced into 32 bits.
fn narrow(wide: i64) -> (r: i32)
    requires
        -0x1_0000_0000 <= wide < 0x1_0000_0000,
    ensures
        r == wrap_i32(wide as int),
{
    if wide > 0x7fff_ffff {
        (wide - 0x1_0000_0000) as i32
    } else if wide < -0x8000_0000 {
        (wide + 0x1_0000_0000) as i32
    } else {
        wide as i32
    }
}

/// The product of two numbers, wrapping.
pub fn wrapping_product(a: i32, b: i32) -> (r: i32)
    ensures
        r == wrap_i32(a * b),
{
    assert(-0x4000_0000_0000_0000 <= a * b <= 0x4000_0000_0000_0000) by (nonlinear_arith)
        requires
            -0x8000_0000 <= a <= 0x7fff_ffff,
            -0x8000_0000 <= b <= 0x7fff_ffff,
    ;
    let wide: i64 = (a as i64) * (b as i64);
    let m: i64 = wide % 0x1_0000_0000;
    let m: i64 = if m < 0 {
        m + 0x1_0000_0000
    } else {
        m
    };
    if m >= 0x8000_0000 {
        (m - 0x1_0000_0000) as i32
    } else {
        m as i32
    }
}

/// The quotient of `y` by `x`, rounded towards zero and wrapped.
pub fn quotient(y: i32, x: i32) -> (r: i32)
    requires
        x != 0,
    ensures
        r == wrap_i32(trunc_div(y as int, x as int)),
{
    let ay: i64 = if y < 0 {
        -(y as i64)
    } else {
        y as i64
    };
    let ax: i64 = if x < 0 {
        -(x as i64)
    } else {
        x as i64
    };
    let q: i64 = ay / ax;
    assert(0 <= q <= ay) by (nonlinear_arith)
        requires
            q == ay / ax,
            ay >= 0,
            ax > 0,
    ;
    if (y < 0) != (x < 0) {
        narrow(-q)
    } else {
        narrow(q)
    }
}

/// The remainder of `y` by `x`, with the sign of `y`.
pub fn remainder(y: i32, x: i32) -> (r: i32)
    requires
        x != 0,
    ensures
        r == trunc_rem(y as int, x as int),
{
    let ay: i64 = if y < 0 {
        -(y as i64)
    } else {
        y as i64
    };
    let ax: i64 = if x < 0 {
        -(x as i64)
    } else {
        x as i64
    };
    let q: i64 = ay / ax;
    let m: i64 = ay % ax;
    assert(0 <= m < ax && ay == ax * q + m) by (nonlinear_arith)
        requires
            q == ay / ax,
            m == ay % ax,
            ay >= 0,
            ax > 0,
    ;
    assert(m <= ay) by (nonlinear_arith)
        requires
            ay == ax * q + m,
            q == ay / ax,
            ay >= 0,
            ax > 0,
            0 <= m,
    ;
    proof {
        let tq = trunc_div(y as int, x as int);
        if (y < 0) != (x < 0) {
            assert(tq == -q);
        } else {
            assert(tq == q);
        }
        assert(x * tq == (if y < 0 { -(ax * q) } else { (ax * q) as int })) by (nonlinear_arith)
            requires
                tq == (if (y < 0) != (x < 0) { -(q as int) } else { q as int }),
                ax == (if x < 0 { -(x as int) } else { x as int }),
        ;
    }
    if y < 0 {
        (-m) as i32
    } else {
        m as i32
    }
}

/// `dup`: the top number once more.
pub fn dup(env: &mut ForthEnv) -> (r: ForthResult<()>)
    ensures
        final(env).wf() == old(env).wf(),
        done(*final(env), r, dup_spec(old(env)@)),
{
    let ghost before = env@.stack;
    let x = match env.pop("Empty stack for dup".to_owned()) {
        Err(e) => {
            return Err(e);
        },
        Ok(x) => x,
    };
    env.push(x);
    env.push(x);
    proof {
        assert(before.drop_last().push(x).push(x) =~= before.push(x));
    }
    Ok(())
}

/// `.`: the top number goes, and is written on a line.
pub fn pop(env: &mut ForthEnv) -> (r: ForthResult<()>)
    ensures
        final(env).wf() == old(env).wf(),
        done(*final(env), r, pop_spec(old(env)@)),
{
    let x = match env.pop("Empty stack for .".to_owned()) {
        Err(e) => {
            return Err(e);
        },
        Ok(x) => x,
    };
    let text = int_to_string(x as i128);
    let line = join(text.as_str(), "\n");
    env.write(line.as_str());
    Ok(())
}

/// The code of the character that `emit` writes for a number: its lowest
/// eight bits.
pub open spec fn low_byte(x: i32) -> u8 {
    (x as int % 256) as u8
}

/// `emit`: the top number goes, and the character with its lowest eight bits
/// as code is written.
pub fn emit(env: &mut ForthEnv) -> (r: ForthResult<()>)
    ensures
        final(env).wf() == old(env).wf(),
        done(*final(env), r, emit_spec(old(env)@)),
{
    let x = match env.pop("Empty stack for emit".to_owned()) {
        Err(e) => {
            return Err(e);
        },
        Ok(x) => x,
    };
    let m: i32 = x % 256;
    let code: u8 = if m < 0 {
        (m + 256) as u8
    } else {
        m as u8
    };
    let text = char_text(code);
    env.write(text.as_str());
    Ok(())
}

/// `cr`: a new line is written.
pub fn cr(env: &mut ForthEnv) -> (r: ForthResult<()>)
    ensures
        final(env).wf() == old(env).wf(),
        done(*final(env), r, cr_spec(old(env)@)),
{
    env.write("\n");
    Ok(())
}

/// `p`: the stack is written.
pub fn print_stack(env: &mut ForthEnv) -> (r: ForthResult<()>)
    ensures
        final(env).wf() == old(env).wf(),
        done(*final(env), r, print_stack_spec(old(env)@)),
{
    env.write("Stack: ");
    env.print_stack();
    proof {
        let a = old(env)@.output;
        let b = "Stack: "@;
        let c = list_text(decimal_texts(old(env)@.stack)) + "\n"@;
        assert((a + b) + c =~= a + (b + c));
    }
    Ok(())
}

/// `d`: the dictionary is written.
pub fn print_func(env: &mut ForthEnv) -> (r: ForthResult<()>)
    ensures
        final(env).wf() == old(env).wf(),
        done(*final(env), r, print_func_spec(old(env)@)),
{
    env.write("Dictionary: ");
    env.print_func();
    proof {
        let a = old(env)@.output;
        let b = "Dictionary: "@;
        let c = table_text(func_entries(old(env)@.funcs)) + "\n"@;
        assert((a + b) + c =~= a + (b + c));
    }
    Ok(())
}

/// `v`: the variables are written.
pub fn print_vars(env: &mut ForthEnv) -> (r: ForthResult<()>)
    ensures
        final(env).wf() == old(env).wf(),
        done(*final(env), r, print_vars_spec(old(env)@)),
{
    env.write("Variables: ");
    env.print_vars();
    proof {
        let a = old(env)@.output;
        let b = "Variables: "@;
        let c = table_text(var_entries(old(env)@.vars)) + "\n"@;
        assert((a + b) + c =~= a + (b + c));
    }
    Ok(())
}

/// `swap`: the two top numbers change places.
pub fn swap(env: &mut ForthEnv) -> (r: ForthResult<()>)
    ensures
        final(env).wf() == old(env).wf(),
        done(*final(env), r, swap_spec(old(env)@)),
{
    let ghost before = env@.stack;
    let x = match env.pop("Empty stack for first element in swap".to_owned()) {
        Err(e) => {
            return Err(e);
        },
        Ok(x) => x,
    };
    let y = match env.pop("Empty stack for second element in swap".to_owned()) {
        Err(e) => {
            return Err(e);
        },
        Ok(y) => y,
    };
    env.push(x);
    env.push(y);
    proof {
        assert(before.drop_last().drop_last() =~= before.take(before.len() - 2));
    }
    Ok(())
}

/// `over`: the number below the top once more, on top.
pub fn over(env: &mut ForthEnv) -> (r: ForthResult<()>)
    ensures
        final(env).wf() == old(env).wf(),
        done(*final(env), r, over_spec(old(env)@)),
{
    let ghost before = env@.stack;
    let x = match env.pop("Empty stack for first element in over".to_owned()) {
        Err(e) => {
            return Err(e);
        },
        Ok(x) => x,
    };
    let y = match env.pop("Empty stack for second element in over".to_owned()) {
        Err(e) => {
            return Err(e);
        },
        Ok(y) => y,
    };
    env.push(y);
    env.push(x);
    env.push(y);
    proof {
        assert(before.drop_last().drop_last().push(y).push(x).push(y) =~= before.push(y));
    }
    Ok(())
}

/// `rot`: of the three top numbers `z y x`, top last, makes `y x z`.
pub fn rot(env: &mut ForthEnv) -> (r: ForthResult<()>)
    ensures
        final(env).wf() == old(env).wf(),
        done(*final(env), r, rot_spec(old(env)@)),
{
    let ghost before = env@.stack;
    let x = match env.pop("Empty stack for first element in rot".to_owned()) {
        Err(e) => {
            return Err(e);
        },
        Ok(x) => x,
    };
    let y = match env.pop("Empty stack for second element in rot".to_owned()) {
        Err(e) => {
            proof {
                assert(before.drop_last() =~= before.take(0));
            }
            return Err(e);
        },
        Ok(y) => y,
    };
    let z = match env.pop("Empty stack for third element in rot".to_owned()) {
        Err(e) => {
            proof {
                assert(before.drop_last().drop_last() =~= before.take(0));
            }
            return Err(e);
        },
        Ok(z) => z,
    };
    env.push(y);
    env.push(x);
    env.push(z);
    proof {
        assert(before.drop_last().drop_last().drop_last() =~= before.take(before.len() - 3));
    }
    Ok(())
}

/// `drop`: the top number goes.
pub fn drop(env: &mut ForthEnv) -> (r: ForthResult<()>)
    ensures
        final(env).wf() == old(env).wf(),
        done(*final(env), r, drop_spec(old(env)@)),
{
    match env.pop("Empty stack for drop".to_owned()) {
        Err(e) => Err(e),
        Ok(_) => Ok(()),
    }
}

/// What a comparing word does: it takes the operands `x`, from the top, and
/// `y`, from below it, and puts the flag of `test(x, y)` back.
pub open spec fn compare_spec(s: ForthEnvView, name: Seq<char>, test: spec_fn(i32, i32) -> bool) -> (
    ForthEnvView,
    Result<(), Seq<char>>,
) {
    binary_spec(s, name, |x: i32, y: i32| Ok::<i32, Seq<char>>(flag(test(x, y))))
}

/// Puts the flag of a truth value on the stack.
fn push_flag(env: &mut ForthEnv, b: bool)
    ensures
        final(env).wf() == old(env).wf(),
        final(env)@ == (ForthEnvView { stack: old(env)@.stack.push(flag(b)), ..old(env)@ }),
{
    if b {
        env.push(-1);
    } else {
        env.push(0);
    }
}

/// `=`: whether the operands are equal.
pub fn eq(env: &mut ForthEnv) -> (r: ForthResult<()>)
    ensures
        final(env).wf() == old(env).wf(),
        done(*final(env), r, eq_spec(old(env)@)),
{
    match operands("=", env) {
        Err(e) => Err(e),
        Ok((x, y)) => {
            push_flag(env, x == y);
            Ok(())
        },
    }
}

/// `!=`: whether the operands differ. Its messages name the word `=`.
pub fn not_eq(env: &mut ForthEnv) -> (r: ForthResult<()>)
    ensures
        final(env).wf() == old(env).wf(),
        done(*final(env), r, not_eq_spec(old(env)@)),
{
    match operands("=", env) {
        Err(e) => Err(e),
        Ok((x, y)) => {
            push_flag(env, x != y);
            Ok(())
        },
    }
}

/// `<`: whether the lower operand is less than the top one.
pub fn lt(env: &mut ForthEnv) -> (r: ForthResult<()>)
    ensures
        final(env).wf() == old(env).wf(),
        done(*final(env), r, lt_spec(old(env)@)),
{
    match operands("<", env) {
        Err(e) => Err(e),
        Ok((x, y)) => {
            push_flag(env, y < x);
            Ok(())
        },
    }
}

/// `>`: whether the lower operand is greater than the top one.
pub fn gt(env: &mut ForthEnv) -> (r: ForthResult<()>)
    ensures
        final(env).wf() == old(env).wf(),
        done(*final(env), r, gt_spec(old(env)@)),
{
    match operands(">", env) {
        Err(e) => Err(e),
        Ok((x, y)) => {
            push_flag(env, y > x);
            Ok(())
        },
    }
}

/// `<=`: whether the lower operand is at most the top one.
pub fn lt_eq(env: &mut ForthEnv) -> (r: ForthResult<()>)
    ensures
        final(env).wf() == old(env).wf(),
        done(*final(env), r, lt_eq_spec(old(env)@)),
{
    match operands("<=", env) {
        Err(e) => Err(e),
        Ok((x, y)) => {
            push_flag(env, y <= x);
            Ok(())
        },
    }
}

/// `>=`: whether the lower operand is at least the top one.
pub fn gt_eq(env: &mut ForthEnv) -> (r: ForthResult<()>)
    ensures
        final(env).wf() == old(env).wf(),
        done(*final(env), r, gt_eq_spec(old(env)@)),
{
    match operands(">=", env) {
        Err(e) => Err(e),
        Ok((x, y)) => {
            push_flag(env, y >= x);
            Ok(())
        },
    }
}

/// `invert`: true for zero, false for anything else.
pub fn invert(env: &mut ForthEnv) -> (r: ForthResult<()>)
    ensures
        final(env).wf() == old(env).wf(),
        done(*final(env), r, invert_spec(old(env)@)),
{
    let x = match env.pop("Empty stack for invert".to_owned()) {
        Err(e) => {
            return Err(e);
        },
        Ok(x) => x,
    };
    push_flag(env, x == 0);
    Ok(())
}

/// What the word of [`add`] does.
pub open spec fn add_spec(s: ForthEnvView) -> Effect {
    binary_spec(s, "+"@, |x: i32, y: i32| Ok::<i32, Seq<char>>(wrap_i32(x + y)))
}

/// What the word of [`subtract`] does.
pub open spec fn subtract_spec(s: ForthEnvView) -> Effect {
    binary_spec(s, "-"@, |x: i32, y: i32| Ok::<i32, Seq<char>>(wrap_i32(y - x)))
}

/// What the word of [`mul`] does.
pub open spec fn mul_spec(s: ForthEnvView) -> Effect {
    binary_spec(s, "*"@, |x: i32, y: i32| Ok::<i32, Seq<char>>(wrap_i32(x * y)))
}

/// What the word of [`div`] does.
pub open spec fn div_spec(s: ForthEnvView) -> Effect {
    binary_spec(s, "/"@, |x: i32, y: i32| quotient_spec(x, y))
}

/// What the word of [`modulus`] does.
pub open spec fn modulus_spec(s: ForthEnvView) -> Effect {
    binary_spec(s, "mod"@, |x: i32, y: i32| remainder_spec(x, y))
}

/// What the word of [`and`] does.
pub open spec fn and_spec(s: ForthEnvView) -> Effect {
    binary_spec(s, "and"@, |x: i32, y: i32| Ok::<i32, Seq<char>>(y & x))
}

/// What the word of [`or`] does.
pub open spec fn or_spec(s: ForthEnvView) -> Effect {
    binary_spec(s, "or"@, |x: i32, y: i32| Ok::<i32, Seq<char>>(y | x))
}

/// What the word of [`eq`] does.
pub open spec fn eq_spec(s: ForthEnvView) -> Effect {
    compare_spec(s, "="@, |x: i32, y: i32| x == y)
}

/// What the word of [`not_eq`] does.
pub open spec fn not_eq_spec(s: ForthEnvView) -> Effect {
    compare_spec(s, "="@, |x: i32, y: i32| x != y)
}

/// What the word of [`lt`] does.
pub open spec fn lt_spec(s: ForthEnvView) -> Effect {
    compare_spec(s, "<"@, |x: i32, y: i32| y < x)
}

/// What the word of [`gt`] does.
pub open spec fn gt_spec(s: ForthEnvView) -> Effect {
    compare_spec(s, ">"@, |x: i32, y: i32| y > x)
}

/// What the word of [`lt_eq`] does.
pub open spec fn lt_eq_spec(s: ForthEnvView) -> Effect {
    compare_spec(s, "<="@, |x: i32, y: i32| y <= x)
}

/// What the word of [`gt_eq`] does.
pub open spec fn gt_eq_spec(s: ForthEnvView) -> Effect {
    compare_spec(s, ">="@, |x: i32, y: i32| y >= x)
}

/// What the word of [`dup`] does.
pub open spec fn dup_spec(s: ForthEnvView) -> Effect {
    if s.stack.len() == 0 {
        (s, Err("Empty stack for dup"@))
    } else {
        (ForthEnvView { stack: s.stack.push(s.stack.last()), ..s }, Ok(()))
    }
}

/// What the word of [`drop`] does.
pub open spec fn drop_spec(s: ForthEnvView) -> Effect {
    if s.stack.len() == 0 {
        (s, Err("Empty stack for drop"@))
    } else {
        (ForthEnvView { stack: s.stack.drop_last(), ..s }, Ok(()))
    }
}

/// What the word of [`invert`] does.
pub open spec fn invert_spec(s: ForthEnvView) -> Effect {
    if s.stack.len() == 0 {
        (s, Err("Empty stack for invert"@))
    } else {
        (ForthEnvView { stack: s.stack.drop_last().push(flag(s.stack.last() == 0)), ..s }, Ok(()))
    }
}

/// What the word of [`swap`] does.
pub open spec fn swap_spec(s: ForthEnvView) -> Effect {
    let st = s.stack;
    if st.len() == 0 {
        (s, Err("Empty stack for first element in swap"@))
    } else if st.len() == 1 {
        (ForthEnvView { stack: st.drop_last(), ..s }, Err("Empty stack for second element in swap"@))
    } else {
        (
            ForthEnvView {
                stack: st.take(st.len() - 2).push(st[st.len() - 1]).push(st[st.len() - 2]),
                ..s
            },
            Ok(()),
        )
    }
}

/// What the word of [`over`] does.
pub open spec fn over_spec(s: ForthEnvView) -> Effect {
    let st = s.stack;
    if st.len() == 0 {
        (s, Err("Empty stack for first element in over"@))
    } else if st.len() == 1 {
        (ForthEnvView { stack: st.drop_last(), ..s }, Err("Empty stack for second element in over"@))
    } else {
        (ForthEnvView { stack: st.push(st[st.len() - 2]), ..s }, Ok(()))
    }
}

/// What the word of [`rot`] does.
pub open spec fn rot_spec(s: ForthEnvView) -> Effect {
    let st = s.stack;
    if st.len() == 0 {
        (s, Err("Empty stack for first element in rot"@))
    } else if st.len() == 1 {
        (ForthEnvView { stack: st.take(0), ..s }, Err("Empty stack for second element in rot"@))
    } else if st.len() == 2 {
        (ForthEnvView { stack: st.take(0), ..s }, Err("Empty stack for third element in rot"@))
    } else {
        (
            ForthEnvView {
                stack: st.take(st.len() - 3).push(st[st.len() - 2]).push(st[st.len() - 1]).push(
                    st[st.len() - 3],
                ),
                ..s
            },
            Ok(()),
        )
    }
}

/// What the word of [`pop`] does.
pub open spec fn pop_spec(s: ForthEnvView) -> Effect {
    if s.stack.len() == 0 {
        (s, Err("Empty stack for ."@))
    } else {
        (
            written(
                ForthEnvView { stack: s.stack.drop_last(), ..s },
                decimal_text(s.stack.last() as int) + "\n"@,
            ),
            Ok(()),
        )
    }
}

/// What the word of [`emit`] does.
pub open spec fn emit_spec(s: ForthEnvView) -> Effect {
    if s.stack.len() == 0 {
        (s, Err("Empty stack for emit"@))
    } else {
        (
            written(
                ForthEnvView { stack: s.stack.drop_last(), ..s },
                seq![low_byte(s.stack.last()) as char],
            ),
            Ok(()),
        )
    }
}

/// What the word of [`cr`] does.
pub open spec fn cr_spec(s: ForthEnvView) -> Effect {
    (written(s, "\n"@), Ok(()))
}

/// What the word of [`print_stack`] does.
pub open spec fn print_stack_spec(s: ForthEnvView) -> Effect {
    (written(s, "Stack: "@ + (list_text(decimal_texts(s.stack)) + "\n"@)), Ok(()))
}

/// What the word of [`print_func`] does.
pub open spec fn print_func_spec(s: ForthEnvView) -> Effect {
    (written(s, "Dictionary: "@ + (table_text(func_entries(s.funcs)) + "\n"@)), Ok(()))
}

/// What the word of [`print_vars`] does.
pub open spec fn print_vars_spec(s: ForthEnvView) -> Effect {
    (written(s, "Variables: "@ + (table_text(var_entries(s.vars)) + "\n"@)), Ok(()))
}

} // verus!
