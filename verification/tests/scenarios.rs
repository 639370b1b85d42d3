//! End-to-end scenarios: programs run against a host that registers the
//! operator natives, `print`, `number` and the boolean constants, as an
//! embedding host would.

use raven_lang::ast::{Func, NativeKind, Type};
use raven_lang::interp::Interpreter;
use raven_lang::parser::ParseString;
use raven_lang::Error;

const FUEL: u64 = 100_000;

fn host() -> Interpreter {
    let mut i = Interpreter::new();
    i.addFunction("print", 1, Func::new(NativeKind::Print));
    i.addFunction("number", 1, Func::new(NativeKind::ToNumber));
    i.addFunction("__add__", 1, Func::new(NativeKind::Add));
    i.addFunction("__sub__", 1, Func::new(NativeKind::Subtract));
    i.addFunction("__mul__", 1, Func::new(NativeKind::Multiply));
    i.addFunction("__div__", 1, Func::new(NativeKind::Divide));
    i.addFunction("__pow__", 1, Func::new(NativeKind::Power));
    i.addFunction("__mod__", 1, Func::new(NativeKind::Modulo));
    i.addFunction("__eq__", 1, Func::new(NativeKind::Equals));
    i.addFunction("__ne__", 1, Func::new(NativeKind::NotEquals));
    i.addFunction("__le__", 1, Func::new(NativeKind::LessThanOrEquals));
    i.addFunction("__ge__", 1, Func::new(NativeKind::GreaterThanOrEquals));
    i.addFunction("__lt__", 1, Func::new(NativeKind::LessThan));
    i.addFunction("__gt__", 1, Func::new(NativeKind::GreaterThan));
    i.addFunction("__and__", 1, Func::new(NativeKind::And));
    i.addFunction("__or__", 1, Func::new(NativeKind::Or));
    i.addFunction("__not__", 1, Func::new(NativeKind::Not));
    i.addObject("true", Type::Bool(true));
    i.addObject("false", Type::Bool(false));
    i
}

fn run_ok(code: &str) -> Vec<String> {
    let mut i = host();
    i.run(code, FUEL).unwrap();
    i.output
}

#[test]
fn chain_call_equivalence() {
    assert_eq!(ParseString("$ add 2 3").unwrap(), ParseString("add(2, 3)").unwrap());
}

#[test]
fn pipe_forward_ast() {
    let ast = ParseString("10 |> f() |> g()").unwrap();
    let inner = Type::Call { callee: "f".to_owned(), arguments: vec![Type::Number(10)] };
    let outer = Type::Call { callee: "g".to_owned(), arguments: vec![inner] };
    assert_eq!(ast, vec![outer]);
}

#[test]
fn pipe_backward_ast() {
    let ast = ParseString("f() <| g() <| 10").unwrap();
    let inner = Type::Call { callee: "g".to_owned(), arguments: vec![Type::Number(10)] };
    let outer = Type::Call { callee: "f".to_owned(), arguments: vec![inner] };
    assert_eq!(ast, vec![outer]);
}

#[test]
fn pipe_forward_evaluates_like_nested_calls() {
    let piped = run_ok(
        r##"fn f(a){ a + 1 }
            fn g(a){ a * 2 }
            print(10 |> f() |> g())"##,
    );
    let nested = run_ok(
        r##"fn f(a){ a + 1 }
            fn g(a){ a * 2 }
            print(g(f(10)))"##,
    );
    assert_eq!(piped, nested);
    assert_eq!(piped, vec!["22".to_owned()]);
}

#[test]
fn pipe_backward_evaluates_like_nested_calls() {
    let piped = run_ok(
        r##"fn f(a){ a + 1 }
            fn g(a){ a * 2 }
            print(f() <| g() <| 10)"##,
    );
    let nested = run_ok(
        r##"fn f(a){ a + 1 }
            fn g(a){ a * 2 }
            print(f(g(10)))"##,
    );
    assert_eq!(piped, nested);
    assert_eq!(piped, vec!["21".to_owned()]);
}

#[test]
fn declaration_then_assignment() {
    assert_eq!(run_ok("let x = 5; x = 8; print(x);"), vec!["8".to_owned()]);
}

#[test]
fn assignment_to_undeclared_name() {
    let mut i = host();
    assert_eq!(i.run("y = 8;", FUEL), Err(Error::UndefinedAssignmentTarget));
}

#[test]
fn currying() {
    let out = run_ok(
        r##"fn add(a,b){ a + b }
            let g = add(2);
            print(g(3));
            print(add(2,3));"##,
    );
    assert_eq!(out, vec!["5".to_owned(), "5".to_owned()]);
}

#[test]
fn while_loop_terminates() {
    let out = run_ok("let i = 0; while (i < 3) { print(i); i = i + 1; }");
    assert_eq!(out, vec!["0".to_owned(), "1".to_owned(), "2".to_owned()]);
}

#[test]
fn operator_dispatch_literals() {
    assert_eq!(run_ok(r##"print(1 + "x")"##), vec!["1x".to_owned()]);
    assert_eq!(run_ok(r##"print("ab" * 3)"##), vec!["ababab".to_owned()]);
    assert_eq!(run_ok("print(5 % 2)"), vec!["1".to_owned()]);
    assert_eq!(run_ok("print(true && false)"), vec!["false".to_owned()]);
    assert_eq!(run_ok(r##"print("a" == "a")"##), vec!["true".to_owned()]);
}

#[test]
fn end_to_end_sum() {
    assert_eq!(run_ok("let x = 5; let y = x + 3; print(y);"), vec!["8".to_owned()]);
}

#[test]
fn end_to_end_conditional() {
    assert_eq!(
        run_ok(r##"if (1 < 2) { print("yes") } else { print("no") }"##),
        vec!["yes".to_owned()],
    );
}

#[test]
fn else_branch_runs_when_false() {
    assert_eq!(
        run_ok(r##"if (2 < 1) { print("yes") } else { print("no") }"##),
        vec!["no".to_owned()],
    );
}

#[test]
fn lambda_form() {
    let ast = ParseString("(a, b) => { }").unwrap();
    assert_eq!(
        ast,
        vec![Type::CreateFunction {
            name: "".to_owned(),
            code: vec![],
            parameters: vec!["a".to_owned(), "b".to_owned()],
        }],
    );
    let out = run_ok("let f = (a) => { a + 1 }; print(f(4));");
    assert_eq!(out, vec!["5".to_owned()]);
}

#[test]
fn closures_share_binding_cells() {
    let out = run_ok(
        r##"let x = 1;
            fn bump(){ x = x + 10 }
            bump();
            bump();
            print(x);"##,
    );
    assert_eq!(out, vec!["21".to_owned()]);
}

#[test]
fn recursion_through_own_binding() {
    let out = run_ok(
        r##"fn fact(n){ if (n < 1) { 1 } else { n * fact(n - 1) } }
            print(fact(5));"##,
    );
    assert_eq!(out, vec!["120".to_owned()]);
}

#[test]
fn number_native_parses_text() {
    assert_eq!(run_ok(r##"print(number("42") + 1)"##), vec!["43".to_owned()]);
}

#[test]
fn comments_have_no_effect() {
    let out = run_ok("// nothing to see\nprint(7)");
    assert_eq!(out, vec!["7".to_owned()]);
}

#[test]
fn print_joins_arguments_with_spaces() {
    assert_eq!(run_ok(r##"print(1, "a", true)"##), vec!["1 a true".to_owned()]);
}

#[test]
fn compound_assignment_desugars() {
    let ast = ParseString("x += 2").unwrap();
    let call = Type::Call {
        callee: "__add__".to_owned(),
        arguments: vec![Type::Symbol("x".to_owned()), Type::Number(2)],
    };
    assert_eq!(
        ast,
        vec![Type::Assignment { variable: "x".to_owned(), value: Box::new(call) }],
    );
    let out = run_ok("let i = 5; i ++; print(i); i *= 3; print(i);");
    assert_eq!(out, vec!["6".to_owned(), "18".to_owned()]);
}

#[test]
fn empty_program() {
    assert_eq!(ParseString("").unwrap(), vec![]);
    assert_eq!(ParseString("   \n  ").unwrap(), vec![]);
    let mut i = host();
    assert_eq!(i.run("", FUEL), Ok(()));
    assert!(i.output.is_empty());
}

#[test]
fn redeclaring_a_name_shadows_it() {
    let out = run_ok("let x = 1; let x = 2; print(x);");
    assert_eq!(out, vec!["2".to_owned()]);
}

#[test]
fn operators_are_overridable_symbols() {
    // Operators desugar to calls on reserved symbols, so rebinding the
    // symbol changes the operator from then on.
    let out = run_ok("fn __add__(a,b){ 42 } print(2 + 3)");
    assert_eq!(out, vec!["42".to_owned()]);
}
