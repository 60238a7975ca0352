use trenchcoat::forth::env::{ForthEnv, ForthVar, VarRef};
use trenchcoat::forth::inter::{rs_add, run_builtin, valid_forth_name, Builtin, Interpreter, NESTING_LIMIT};
use trenchcoat::forth::text::{ints_text, join, join3, same, tokens, trim, words_text};

fn run(lines: &[&str]) -> ForthEnv {
    let intr = Interpreter::new();
    let mut env = ForthEnv::empty();
    for line in lines {
        intr.eval(&mut env, line);
    }
    env
}

fn output(lines: &[&str]) -> String {
    run(lines).output
}

#[test]
fn numbers_and_words() {
    let env = run(&["1 2 + 3 *"]);
    assert_eq!(env.stack, vec![9]);
    assert_eq!(env.output, "=> [9]\n");
    assert_eq!(output(&["10 3 - 7 2 / 7 2 mod"]), "=> [7, 3, 1]\n");
    assert_eq!(output(&["6 3 and 6 3 or"]), "=> [2, 7]\n");
    assert_eq!(output(&["1 2 swap 3 over rot dup drop"]), "=> [2, 3, 1, 1]\n");
    assert_eq!(output(&["1 2 = 1 2 != 1 2 < 1 2 > 2 2 <= 1 2 >= 0 invert"]), "=> [0, -1, -1, 0, -1, 0, -1]\n");
    assert_eq!(output(&["-5 2147483647 1 +"]), "=> [-5, -2147483648]\n");
}

#[test]
fn blank_tokens_are_passed_over() {
    assert_eq!(output(&["  1   2  "]), "=> [1, 2]\n");
    assert_eq!(output(&[""]), "=> []\n");
    assert_eq!(output(&["1\t 2\n"]), "=> [1, 2]\n");
}

#[test]
fn writing_words() {
    assert_eq!(output(&["42 ."]), "42\n=> []\n");
    assert_eq!(output(&["72 emit 105 emit cr"]), "Hi\n=> []\n");
    assert_eq!(output(&["321 emit"]), "A=> []\n");
    assert_eq!(output(&["-1 emit"]), "\u{ff}=> []\n");
    assert_eq!(output(&["1 2 p"]), "Stack: [1, 2]\n=> [1, 2]\n");
    assert_eq!(output(&[".\" hello big world\""]), "hello big world=> []\n");
    assert_eq!(output(&[".\" hello \""]), "hello => []\n");
    assert_eq!(output(&[".\" never ends"]), "Error: Nonterminated string\n=> []\n");
}

#[test]
fn errors_end_the_line() {
    assert_eq!(output(&["1 + 5"]), "Error: Empty stack: for second argument for +\n=> []\n");
    assert_eq!(output(&["bogus 5"]), "Invalid token: bogus\n=> []\n");
    assert_eq!(output(&["1 0 / 5"]), "Error: Division by zero\n=> []\n");
    assert_eq!(output(&["drop"]), "Error: Empty stack for drop\n=> []\n");
    assert_eq!(output(&["."]), "Error: Empty stack for .\n=> []\n");
}

#[test]
fn defined_words() {
    let env = run(&[": sq dup * ;", "7 sq"]);
    assert_eq!(env.output, "Defined: (\"sq\", [\"dup\", \"*\"])\n=> []\n=> [49]\n=> [49]\n");
    assert_eq!(env.get_function("sq"), Some(("sq".to_string(), vec!["dup".to_string(), "*".to_string()])));
    assert_eq!(output(&[": 12 dup ;"]), "Error: Invalid name for function: 12\n=> []\n");
    assert_eq!(output(&[":"]), "Error: Invalid function\n=> []\n");
    assert_eq!(output(&[": sq dup *"]), "Error: Invalid function\n=> []\n");
    assert_eq!(output(&[": sq dup * ; d"]), "Defined: (\"sq\", [\"dup\", \"*\"])\nDictionary: {\"sq\": (\"sq\", [\"dup\", \"*\"])}\n=> []\n");
}

#[test]
fn endless_recursion_is_cut_off() {
    let env = run(&[": f f ;", "f"]);
    let deep = "Error: Evaluation too deep\n=> []\n";
    assert!(env.output.starts_with("Defined: (\"f\", [\"f\"])\n=> []\n"));
    assert!(env.output.contains(deep));
    assert_eq!(env.output.matches("=> []\n").count(), NESTING_LIMIT as usize + 2);
}

#[test]
fn conditionals() {
    assert_eq!(output(&["1 if 10 else 20 then 5"]), "=> [10]\n=> [10, 5]\n");
    assert_eq!(output(&["0 if 10 else 20 then 5"]), "=> [20]\n=> [20, 5]\n");
    assert_eq!(output(&["0 if 10 then 5"]), "=> []\n=> [5]\n");
    assert_eq!(output(&["1 if 10 else 20 else 30 then"]), "=> [10]\n=> [10]\n");
    assert_eq!(output(&["0 if 10 else 20 else 30 then"]), "=> [20, 30]\n=> [20, 30]\n");
    assert_eq!(output(&["if 1 then"]), "Error: Empty stack for condition in if\n=> []\n");
    assert_eq!(output(&["1 if then 7"]), "Error: Empty statement for then clause\n=> []\n");
    assert_eq!(output(&["1 if 2 else then 7"]), "Error: Empty statement for then clause after else\n=> []\n");
    assert_eq!(output(&["1 if 2 3"]), "=> [2, 3]\n=> [2, 3]\n");
}

#[test]
fn loops() {
    assert_eq!(output(&["3 0 do i loop"]), "=> [0]\n=> [0, 1]\n=> [0, 1, 2]\n=> [0, 1, 2]\n");
    assert_eq!(output(&["0 3 do i loop 9"]), "=> [9]\n");
    assert_eq!(output(&["3 0 do loop"]), "Error: Empty loop body\n=> [3, 0]\n");
    assert_eq!(output(&["do i loop"]), "Error: Empty stack for start of do loop\n=> []\n");
    assert_eq!(output(&["1 do i loop"]), "Error: Empty stack for end of do loop\n=> []\n");
    let env = run(&["2 0 do i loop", "i"]);
    assert!(env.output.ends_with("Invalid token: i\n=> [0, 1]\n"));
    assert_eq!(env.get_special("i"), None);
}

#[test]
fn variables_and_constants() {
    let env = run(&["variable x", "5 x !", "x @"]);
    assert_eq!(env.stack, vec![5]);
    assert_eq!(env.get_variable("x"), Some(ForthVar::Var(5)));
    assert_eq!(env.output, "=> []\n=> []\n=> [5]\n");
    assert_eq!(env.var_refs, vec![VarRef::Var("x".to_string())]);
    assert_eq!(output(&["variable 12"]), "Error: Invalid variable name: 12\n=> []\n");
    assert_eq!(output(&["variable"]), "Error: Variable name not found\n=> []\n");
    assert_eq!(output(&["@"]), "Error: No variable reference found to set value\n=> []\n");
    assert_eq!(output(&["!"]), "Error: No variable reference found to set value\n=> []\n");
    assert_eq!(output(&["variable x !"]), "Error: Stack empty to set variable value\n=> []\n");
    assert_eq!(output(&["7 constant seven seven seven +"]), "=> [14]\n");
    assert_eq!(output(&["constant c"]), "Error: Stack empty to set constant c\n=> []\n");
    assert_eq!(output(&["1 constant"]), "Error: Variable name not found\n=> [1]\n");
    assert_eq!(output(&["variable x 3 x ! v"]), "Variables: {\"x\": Var(3)}\n=> []\n");
}

#[test]
fn arrays() {
    let env = run(&["variable a", "3 cells allot", "7 a 1 + !", "a 1 + @"]);
    assert_eq!(env.get_variable("a"), Some(ForthVar::Array(vec![0, 7, 0])));
    assert_eq!(env.stack, vec![7]);
    assert_eq!(output(&["variable a 2 allot v"]), "Variables: {\"a\": Array([0, 0])}\n=> []\n");
    assert_eq!(output(&["cells"]), "Error: Empty stack to evaluate cells\n=> []\n");
    assert_eq!(output(&["allot"]), "Error: No variable found to allocate as an array!\n=> []\n");
    assert_eq!(output(&["variable a allot"]), "Error: Stack empty to allot array\n=> []\n");
    assert_eq!(output(&["variable a 2 allot a 2 allot"]), "Error: a is already an array\n=> [2]\n");
    assert_eq!(output(&["variable x x 1 +"]), "Error: Cannot set slot on normal variable: x\n=> [1]\n");
    assert_eq!(output(&["variable a 2 allot a +"]), "Error: Stack empty to set slot value for array\n=> []\n");
    assert_eq!(
        output(&["variable a 2 allot 9 a 5 + !"]),
        "Error: Setting array a value failed because: Cannot set at position: 5 when array length is: 2\n=> []\n"
    );
    assert_eq!(
        output(&["variable a 2 allot a 5 + @"]),
        "Error: Cannot get at position: 5 when array length is: 2\n=> []\n"
    );
    assert_eq!(output(&["variable a 2 allot a !"]), "Error: Stack empty to set array value\n=> []\n");
}

#[test]
fn references_the_interpreter_cannot_follow() {
    let intr = Interpreter::new();
    let mut env = ForthEnv::empty();
    env.push_variable_ref(VarRef::Var("ghost".to_string()));
    intr.eval(&mut env, "@");
    assert_eq!(env.output, "Error: No such variable: ghost\n=> []\n");
    env.output.clear();
    env.push(1);
    env.push_variable_ref(VarRef::Var("ghost".to_string()));
    intr.eval(&mut env, "!");
    assert_eq!(env.output, "Error: No such variable: ghost\n=> []\n");
    assert_eq!(env.get_variable("ghost"), Some(ForthVar::Var(1)));
    env.output.clear();
    env.push_variable_ref(VarRef::Array("none".to_string(), 0));
    intr.eval(&mut env, "@");
    assert_eq!(env.output, "Error: No such array: none\n=> []\n");
    env.output.clear();
    env.push(1);
    env.push_variable_ref(VarRef::Array("none".to_string(), 0));
    intr.eval(&mut env, "!");
    assert_eq!(env.output, "Error: No such array: none\n=> []\n");
    env.output.clear();
    env.push_variable_ref(VarRef::Array("ghost".to_string(), 0));
    intr.eval(&mut env, "@");
    assert_eq!(env.output, "Error: Unexpected variable found when array expected with name ghost\n=> []\n");
    env.output.clear();
    env.allot_array("arr", 1);
    env.push_variable_ref(VarRef::Var("arr".to_string()));
    intr.eval(&mut env, "@");
    assert_eq!(env.output, "Error: Unexpected array found when variable expected with name arr\n=> []\n");
    env.output.clear();
    env.push(4);
    env.push_variable_ref(VarRef::Array("ghost".to_string(), 0));
    intr.eval(&mut env, "!");
    assert_eq!(
        env.output,
        "Error: Setting array ghost value failed because: Variable ghost is not an array!\n=> []\n"
    );
}

#[test]
fn foreign_word() {
    assert_eq!(output(&["2 3 rs+"]), "=> [5]\n");
    assert_eq!(output(&["2 rs+"]), "Invalid token: rs+\n=> []\n");
    assert_eq!(rs_add(i32::MAX, 1), i32::MIN);
}

#[test]
fn special_variables_come_before_words() {
    let intr = Interpreter::new();
    let mut env = ForthEnv::empty();
    env.set_special("dup", 5);
    intr.eval(&mut env, "1 dup");
    assert_eq!(env.output, "=> [1, 5]\n");
}

#[test]
fn output_can_be_taken() {
    let intr = Interpreter::new();
    let mut env = ForthEnv::empty();
    intr.eval(&mut env, "1");
    assert_eq!(env.take_output(), "=> [1]\n");
    assert_eq!(env.take_output(), "");
    env.write("x");
    env.print_stack();
    env.print_func();
    env.print_vars();
    assert_eq!(env.take_output(), "x[1]\n{}\n{}\n");
}

#[test]
fn builtins() {
    let mut env = ForthEnv::empty();
    env.push(2);
    env.push(3);
    assert_eq!(run_builtin(Builtin::Mul, &mut env), Ok(()));
    assert_eq!(env.stack, vec![6]);
    assert_eq!(run_builtin(Builtin::Add, &mut env), Err("Empty stack: for second argument for +".to_string()));
    assert_eq!(Interpreter::new().builtins.len(), 25);
    assert!(valid_forth_name("abc"));
    assert!(!valid_forth_name("12"));
    assert!(!valid_forth_name("-12"));
    assert!(valid_forth_name("1x"));
}

#[test]
fn text_helpers() {
    assert_eq!(tokens("a  b c"), vec!["a", "", "b", "c"]);
    assert_eq!(tokens(""), vec![""]);
    assert_eq!(tokens(" x\t"), vec!["", "x"]);
    assert_eq!(tokens("ä ∆"), vec!["ä", "∆"]);
    assert_eq!(trim("  a b \n"), "a b");
    assert_eq!(trim("\t\n "), "");
    assert_eq!(trim("\u{a0}x\u{3000}"), "x");
    assert_eq!(join("a", "b"), "ab");
    assert_eq!(join3("a", "b", "c"), "abc");
    assert!(same("a", "a") && !same("a", "b"));
    assert_eq!(ints_text(&vec![]), "[]");
    assert_eq!(ints_text(&vec![1, -2]), "[1, -2]");
    assert_eq!(words_text(&vec!["a".to_string(), "b\"c".to_string()]), "[\"a\", \"b\\\"c\"]");
    assert_eq!(ints_text(&vec![1, 2, 3]), format!("{:?}", vec![1, 2, 3]));
    assert_eq!(words_text(&vec!["x".to_string()]), format!("{:?}", vec!["x"]));
}

#[test]
fn numbers_are_signed_decimal_digits() {
    for text in ["0", "7", "-7", "+7", "007", "-0", "2147483647", "-2147483648", "+0012"] {
        assert!(!valid_forth_name(text), "{text:?} is a number");
    }
    for text in ["", "-", "+", "+-5", "--5", "5-", " 5", "5 ", "1_0", "0x10", "1.5", "2147483648", "-2147483649", "x", "٣"] {
        assert!(valid_forth_name(text), "{text:?} is no number");
    }
    let env = run(&["+12 -0 007 -2147483648"]);
    assert_eq!(env.stack, vec![12, 0, 7, i32::MIN]);
    assert_eq!(ints_text(&vec![-5, 0, 120, i32::MIN, i32::MAX]), "[-5, 0, 120, -2147483648, 2147483647]");
}

#[test]
fn white_space_is_what_unicode_says() {
    assert_eq!(trim("\u{a0}\t x y\u{3000}\u{2028}\n"), "x y");
    assert_eq!(trim("\u{200b}x\u{feff}"), "\u{200b}x\u{feff}");
    assert_eq!(trim("\u{85}\u{1680}\u{2000}\u{200a}\u{2029}\u{202f}\u{205f}\u{b}\u{c}\r"), "");
    assert_eq!(trim("\u{180e}"), "\u{180e}");
    assert_eq!(trim("\u{1c}"), "\u{1c}");
}

#[test]
fn a_token_is_a_number_before_it_is_a_name() {
    let inter = Interpreter::new();
    let mut env = run(&["5 constant five", "variable x"]);
    assert_eq!(env.stack, Vec::<i32>::new());
    assert!(inter.eval_number_or_name("five", Some(9), &mut env));
    assert_eq!(env.stack, vec![9]);
    assert!(inter.eval_number_or_name("five", None, &mut env));
    assert_eq!(env.stack, vec![9, 5]);
    let mut refs = env.var_refs.clone();
    refs.push(VarRef::Var("x".to_string()));
    assert!(inter.eval_number_or_name("x", None, &mut env));
    assert_eq!(env.var_refs, refs);
    let before = env.output.clone();
    assert!(!inter.eval_number_or_name("nope", None, &mut env));
    assert_eq!(env.output, format!("{before}Invalid token: nope\n"));
    assert_eq!(env.stack, vec![9, 5]);
}
