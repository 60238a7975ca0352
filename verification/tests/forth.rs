use trenchcoat::forth::env::{copy_ints, copy_words, ForthEnv, ForthVar, VarRef};
use trenchcoat::forth::ops;

fn env_with(stack: &[i32]) -> ForthEnv {
    let mut env = ForthEnv::empty();
    for &n in stack {
        env.push(n);
    }
    env
}

fn check(word: fn(&mut ForthEnv) -> Result<(), String>, before: &[i32], after: &[i32]) {
    let mut env = env_with(before);
    assert_eq!(word(&mut env), Ok(()));
    assert_eq!(env.stack, after);
}

fn check_err(word: fn(&mut ForthEnv) -> Result<(), String>, before: &[i32], after: &[i32], msg: &str) {
    let mut env = env_with(before);
    assert_eq!(word(&mut env), Err(msg.to_string()));
    assert_eq!(env.stack, after);
}

#[test]
fn empty_environment() {
    let mut env = ForthEnv::empty();
    assert!(env.stack.is_empty());
    assert_eq!(env.top("nothing".to_string()), Err("nothing".to_string()));
    assert_eq!(env.pop("nothing".to_string()), Err("nothing".to_string()));
    assert_eq!(env.top_variable_ref(), None);
    assert_eq!(env.pop_variable_ref(), None);
    assert_eq!(env.get_variable("x"), None);
    assert_eq!(env.get_constant("x"), None);
    assert_eq!(env.get_function("x"), None);
    assert_eq!(env.get_special("i"), None);
    assert_eq!(env.clear_special("i"), None);
}

#[test]
fn env_stack() {
    let mut env = ForthEnv::empty();
    env.push(1);
    env.push(2);
    assert_eq!(env.top("m".to_string()), Ok(2));
    assert_eq!(env.pop("m".to_string()), Ok(2));
    assert_eq!(env.pop("m".to_string()), Ok(1));
    assert_eq!(env.pop("m".to_string()), Err("m".to_string()));
}

#[test]
fn env_references() {
    let mut env = ForthEnv::empty();
    env.push_variable_ref(VarRef::Var("a".to_string()));
    env.push_variable_ref(VarRef::Array("b".to_string(), 3));
    assert_eq!(env.top_variable_ref(), Some(VarRef::Array("b".to_string(), 3)));
    assert_eq!(env.pop_variable_ref(), Some(VarRef::Array("b".to_string(), 3)));
    assert_eq!(env.pop_variable_ref(), Some(VarRef::Var("a".to_string())));
    assert_eq!(env.pop_variable_ref(), None);
}

#[test]
fn env_tables() {
    let mut env = ForthEnv::empty();
    assert_eq!(env.add_variable("x", ForthVar::Var(1)), None);
    assert_eq!(env.add_variable("y", ForthVar::Var(5)), None);
    assert_eq!(env.add_variable("x", ForthVar::Var(2)), Some(ForthVar::Var(1)));
    assert_eq!(env.get_variable("x"), Some(ForthVar::Var(2)));
    assert_eq!(env.get_variable("y"), Some(ForthVar::Var(5)));
    assert_eq!(env.add_constant("c", 7), None);
    assert_eq!(env.add_constant("c", 8), Some(7));
    assert_eq!(env.get_constant("c"), Some(8));
    let f = ("sq".to_string(), vec!["dup".to_string(), "*".to_string()]);
    assert_eq!(env.add_function("sq", f.clone()), None);
    assert_eq!(env.get_function("sq"), Some(f.clone()));
    assert_eq!(env.add_function("sq", ("sq".to_string(), vec![])), Some(f));
    assert_eq!(env.set_special("i", 1), None);
    assert_eq!(env.set_special("j", 9), None);
    assert_eq!(env.set_special("i", 2), Some(1));
    assert_eq!(env.get_special("i"), Some(2));
    assert_eq!(env.clear_special("i"), Some(2));
    assert_eq!(env.get_special("i"), None);
    assert_eq!(env.get_special("j"), Some(9));
    assert_eq!(env.clear_special("i"), None);
}

#[test]
fn env_arrays() {
    let mut env = ForthEnv::empty();
    env.allot_array("a", 3);
    assert_eq!(env.get_variable("a"), Some(ForthVar::Array(vec![0, 0, 0])));
    assert_eq!(env.array_set("a", 1, 7), Ok(()));
    assert_eq!(env.get_variable("a"), Some(ForthVar::Array(vec![0, 7, 0])));
    assert_eq!(
        env.array_set("a", 3, 7),
        Err("Cannot set at position: 3 when array length is: 3".to_string())
    );
    assert_eq!(
        env.array_set("a", -1, 7),
        Err("Cannot set at position: -1 when array length is: 3".to_string())
    );
    assert_eq!(env.array_set("b", 0, 7), Err("No such array variable: b".to_string()));
    env.add_variable("v", ForthVar::Var(1));
    assert_eq!(env.array_set("v", 0, 7), Err("Variable v is not an array!".to_string()));
    env.allot_array("n", -2);
    assert_eq!(env.get_variable("n"), Some(ForthVar::Array(vec![])));
    assert_eq!(copy_ints(&vec![1, 2, 3]), vec![1, 2, 3]);
    assert_eq!(copy_words(&vec!["a".to_string()]), vec!["a".to_string()]);
}

#[test]
fn arithmetic_words() {
    check(ops::add, &[9, 5, 4], &[9, 9]);
    check(ops::subtract, &[5, 4], &[1]);
    check(ops::mul, &[5, 4], &[20]);
    check(ops::div, &[20, 4], &[5]);
    check(ops::div, &[-7, 2], &[-3]);
    check(ops::div, &[7, -2], &[-3]);
    check(ops::modulus, &[7, 4], &[3]);
    check(ops::modulus, &[-7, 4], &[-3]);
    check(ops::modulus, &[7, -4], &[3]);
    check(ops::and, &[6, 3], &[2]);
    check(ops::or, &[6, 3], &[7]);
    check(ops::add, &[i32::MAX, 1], &[i32::MIN]);
    check(ops::subtract, &[i32::MIN, 1], &[i32::MAX]);
    check(ops::mul, &[i32::MAX, 2], &[-2]);
    check(ops::mul, &[65536, 65536], &[0]);
    check(ops::div, &[i32::MIN, -1], &[i32::MIN]);
    check(ops::modulus, &[i32::MIN, -1], &[0]);
    check_err(ops::div, &[3, 1, 0], &[3], "Division by zero");
    check_err(ops::modulus, &[1, 0], &[], "Division by zero");
}

#[test]
fn wrapping_helpers() {
    for &(a, b) in [(1, 2), (i32::MAX, i32::MAX), (i32::MIN, i32::MIN), (i32::MIN, -1), (-7, 3), (123456, -654321)].iter() {
        assert_eq!(ops::wrapping_sum(a, b), a.wrapping_add(b));
        assert_eq!(ops::wrapping_difference(a, b), a.wrapping_sub(b));
        assert_eq!(ops::wrapping_product(a, b), a.wrapping_mul(b));
        assert_eq!(ops::quotient(a, b), a.wrapping_div(b));
        assert_eq!(ops::remainder(a, b), a.wrapping_rem(b));
    }
}

#[test]
fn short_stacks() {
    check_err(ops::add, &[], &[], "Empty stack: for first argument for +");
    check_err(ops::add, &[1], &[], "Empty stack: for second argument for +");
    check_err(ops::subtract, &[1], &[], "Empty stack: for second argument for -");
    check_err(ops::mul, &[], &[], "Empty stack: for first argument for *");
    check_err(ops::div, &[], &[], "Empty stack: for first argument for /");
    check_err(ops::modulus, &[2], &[], "Empty stack: for second argument for mod");
    check_err(ops::and, &[], &[], "Empty stack: for first argument for and");
    check_err(ops::or, &[], &[], "Empty stack: for first argument for or");
    check_err(ops::eq, &[], &[], "Empty stack: for first argument for =");
    check_err(ops::not_eq, &[1], &[], "Empty stack: for second argument for =");
    check_err(ops::lt, &[], &[], "Empty stack: for first argument for <");
    check_err(ops::gt, &[], &[], "Empty stack: for first argument for >");
    check_err(ops::lt_eq, &[], &[], "Empty stack: for first argument for <=");
    check_err(ops::gt_eq, &[], &[], "Empty stack: for first argument for >=");
    check_err(ops::dup, &[], &[], "Empty stack for dup");
    check_err(ops::drop, &[], &[], "Empty stack for drop");
    check_err(ops::invert, &[], &[], "Empty stack for invert");
    check_err(ops::swap, &[], &[], "Empty stack for first element in swap");
    check_err(ops::swap, &[1], &[], "Empty stack for second element in swap");
    check_err(ops::over, &[], &[], "Empty stack for first element in over");
    check_err(ops::over, &[1], &[], "Empty stack for second element in over");
    check_err(ops::rot, &[], &[], "Empty stack for first element in rot");
    check_err(ops::rot, &[1], &[], "Empty stack for second element in rot");
    check_err(ops::rot, &[1, 2], &[], "Empty stack for third element in rot");
}

#[test]
fn stack_words() {
    check(ops::dup, &[1, 2], &[1, 2, 2]);
    check(ops::swap, &[1, 2, 3], &[1, 3, 2]);
    check(ops::over, &[1, 2, 3], &[1, 2, 3, 2]);
    check(ops::rot, &[0, 1, 2, 3], &[0, 2, 3, 1]);
    check(ops::drop, &[1, 2], &[1]);
}

#[test]
fn comparing_words() {
    check(ops::eq, &[3, 3], &[-1]);
    check(ops::eq, &[3, 4], &[0]);
    check(ops::not_eq, &[3, 4], &[-1]);
    check(ops::not_eq, &[3, 3], &[0]);
    check(ops::lt, &[3, 4], &[-1]);
    check(ops::lt, &[4, 3], &[0]);
    check(ops::gt, &[4, 3], &[-1]);
    check(ops::gt, &[3, 4], &[0]);
    check(ops::lt_eq, &[4, 4], &[-1]);
    check(ops::lt_eq, &[5, 4], &[0]);
    check(ops::gt_eq, &[4, 4], &[-1]);
    check(ops::gt_eq, &[3, 4], &[0]);
    check(ops::invert, &[9, 0], &[9, -1]);
    check(ops::invert, &[9, 5], &[9, 0]);
}
