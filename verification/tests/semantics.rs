//! Error taxonomy, operator edge cases, rendering, and the arena API.

use raven_lang::ast::{Func, FunctionTypes, NativeKind, Type};
use raven_lang::interp::Interpreter;
use raven_lang::parser::ParseString;
use raven_lang::render::{bracket, sep};
use raven_lang::scope::{Scope, Slot};
use raven_lang::Error;

const FUEL: u64 = 100_000;

fn full_host() -> Interpreter {
    let mut i = Interpreter::new();
    i.addFunction("print", 1, Func::new(NativeKind::Print));
    i.addFunction("number", 1, Func::new(NativeKind::ToNumber));
    i.addFunction("__add__", 1, Func::new(NativeKind::Add));
    i.addFunction("__sub__", 1, Func::new(NativeKind::Subtract));
    i.addFunction("__mul__", 1, Func::new(NativeKind::Multiply));
    i.addFunction("__div__", 1, Func::new(NativeKind::Divide));
    i.addFunction("__pow__", 1, Func::new(NativeKind::Power));
    i.addFunction("__mod__", 1, Func::new(NativeKind::Modulo));
    i.addFunction("__eq__", 1, Func::new(NativeKind::Equals));
    i.addFunction("__ne__", 1, Func::new(NativeKind::NotEquals));
    i.addFunction("__le__", 1, Func::new(NativeKind::LessThanOrEquals));
    i.addFunction("__ge__", 1, Func::new(NativeKind::GreaterThanOrEquals));
    i.addFunction("__lt__", 1, Func::new(NativeKind::LessThan));
    i.addFunction("__gt__", 1, Func::new(NativeKind::GreaterThan));
    i.addFunction("__and__", 1, Func::new(NativeKind::And));
    i.addFunction("__or__", 1, Func::new(NativeKind::Or));
    i.addFunction("__not__", 1, Func::new(NativeKind::Not));
    i.addObject("true", Type::Bool(true));
    i.addObject("false", Type::Bool(false));
    i
}

fn run_err(code: &str) -> Error {
    let mut i = full_host();
    i.run(code, FUEL).unwrap_err()
}

#[test]
fn syntax_error_reports_position() {
    let mut i = full_host();
    match i.run("let x = 5; ???", FUEL) {
        Err(Error::SyntaxError(pos)) => assert_eq!(pos, 11),
        other => panic!("expected a syntax error, got {:?}", other),
    }
}

#[test]
fn undefined_symbol() {
    assert_eq!(run_err("print(zzz)"), Error::UndefinedSymbol);
}

#[test]
fn undefined_assignment_target() {
    assert_eq!(run_err("zzz = 1"), Error::UndefinedAssignmentTarget);
}

#[test]
fn arity_error_too_many_arguments() {
    assert_eq!(run_err("fn add2(a,b){ a + b } add2(1,2,3)"), Error::ArityError);
}

#[test]
fn arity_error_native_minimum() {
    let mut i = Interpreter::new();
    i.addFunction("needs_two", 2, Func::new(NativeKind::Add));
    assert_eq!(i.run("needs_two(1)", FUEL), Err(Error::ArityError));
}

#[test]
fn type_error_non_boolean_condition() {
    assert_eq!(run_err("if (5) { print(1) }"), Error::TypeError);
}

#[test]
fn type_error_operator_domain() {
    assert_eq!(run_err(r##"print(5 && true)"##), Error::TypeError);
    assert_eq!(run_err(r##"print("a" - "b")"##), Error::TypeError);
}

#[test]
fn void_value_error_in_declaration() {
    assert_eq!(run_err("let x = print(1)"), Error::VoidValueError);
}

#[test]
fn arithmetic_error_division_by_zero() {
    assert_eq!(run_err("print(5 / 0)"), Error::ArithmeticError);
}

#[test]
fn arithmetic_error_overflow() {
    assert_eq!(
        run_err("print(9223372036854775807 + 1)"),
        Error::ArithmeticError,
    );
}

#[test]
fn out_of_steps_on_endless_loop() {
    let mut i = full_host();
    assert_eq!(i.run("while (true) { print(1) }", 200), Err(Error::OutOfSteps));
}

#[test]
fn truncating_division_and_remainder() {
    let mut i = full_host();
    i.run("let a = 0 - 7; print(a / 2); print(a % 2);", FUEL).unwrap();
    assert_eq!(i.output, vec!["-3".to_owned(), "-1".to_owned()]);
}

#[test]
fn power_operator() {
    let mut i = full_host();
    i.run("print(2 ** 10)", FUEL).unwrap();
    assert_eq!(i.output, vec!["1024".to_owned()]);
    assert_eq!(run_err("print(2 ** 64)"), Error::ArithmeticError);
}

#[test]
fn string_repeat_negative_count_is_empty() {
    let mut i = full_host();
    i.run(r##"let n = 0 - 2; print("ab" * n, "end")"##, FUEL).unwrap();
    assert_eq!(i.output, vec![" end".to_owned()]);
}

#[test]
fn rendering_of_values() {
    assert_eq!(Type::Number(10).toString(), "10");
    assert_eq!(Type::Number(-5).toString(), "-5");
    assert_eq!(Type::Number(0).toString(), "0");
    assert_eq!(Type::Bool(true).toString(), "true");
    assert_eq!(Type::Str("hi".to_owned()).toString(), "hi");
    assert_eq!(Type::Symbol("x".to_owned()).toString(), "x");
}

#[test]
fn string_value_reads_strings_only() {
    assert_eq!(
        Interpreter::string_value(&Type::Str("ok".to_owned())),
        Ok("ok".to_owned()),
    );
    assert_eq!(Interpreter::string_value(&Type::Number(1)), Err(Error::TypeError));
}

#[test]
fn arity_check_helper() {
    let user = FunctionTypes::NormalFunction {
        code: vec![],
        scope: 0,
        parameters: vec!["a".to_owned(), "b".to_owned()],
    };
    assert!(FunctionTypes::isEnoughArgs(&user, 2));
    assert!(!FunctionTypes::isEnoughArgs(&user, 1));
    assert!(!FunctionTypes::isEnoughArgs(&user, 3));
    let native = FunctionTypes::BuiltIn { function: Func::new(NativeKind::Print), parameters: 1 };
    assert!(FunctionTypes::isEnoughArgs(&native, 1));
    assert!(FunctionTypes::isEnoughArgs(&native, 4));
    assert!(!FunctionTypes::isEnoughArgs(&native, 0));
}

#[test]
fn arena_scope_and_cells() {
    let mut scopes = vec![Scope::new()];
    let mut slots: Vec<Slot> = Vec::new();
    scopes.push(Scope::with(0));

    Scope::declare(&mut scopes, &mut slots, 0, &"x".to_owned(), Type::Number(1));
    assert_eq!(Scope::get(&scopes, 1, &"x".to_owned()), Some(0));
    assert_eq!(Scope::get(&scopes, 1, &"y".to_owned()), None);

    // Shadowing in the child leaves the outer cell alone.
    Scope::declare(&mut scopes, &mut slots, 1, &"x".to_owned(), Type::Number(2));
    assert_eq!(Scope::get(&scopes, 1, &"x".to_owned()), Some(1));
    assert_eq!(Scope::get(&scopes, 0, &"x".to_owned()), Some(0));

    // Assignment through the child updates the nearest cell in place.
    Scope::assign(&scopes, &mut slots, 1, &"x".to_owned(), Type::Number(9)).unwrap();
    assert_eq!(slots[1].get(), Type::Number(9));
    assert_eq!(slots[0].get(), Type::Number(1));
    assert_eq!(
        Scope::assign(&scopes, &mut slots, 1, &"nope".to_owned(), Type::Number(0)),
        Err(Error::UndefinedAssignmentTarget),
    );

    let mut cell = Slot::new(Type::Bool(false));
    cell.set(Type::Bool(true));
    assert_eq!(cell.get(), Type::Bool(true));
}

#[test]
fn indentation_and_brackets() {
    let pad = sep(2);
    assert_eq!(pad.len(), 8);
    assert!(pad.chars().all(|c| c == ' '));
    for depth in 0..5 {
        let b = bracket("{", depth);
        assert!(b.len() >= 1);
        assert!(b.contains('{'));
    }
}

#[test]
fn number_literal_bounds() {
    assert_eq!(
        ParseString("9223372036854775807").unwrap(),
        vec![Type::Number(i64::MAX)],
    );
    assert!(matches!(ParseString("9223372036854775808"), Err(Error::SyntaxError(_))));
    assert!(matches!(ParseString("1.5"), Err(Error::SyntaxError(_))));
}

#[test]
fn negative_number_literal() {
    assert_eq!(ParseString("-5").unwrap(), vec![Type::Number(-5)]);
}
