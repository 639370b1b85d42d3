use raven_lang::ast::Type;
use raven_lang::parser::ParseString;

#[test]
pub fn basic() {
    const CODE: &str = "10";
    let ast = ParseString(CODE).unwrap();
    assert_eq!(ast, vec![Type::Number(10)])
}

#[test]
pub fn function_call() {
    println!("beginning first test");
    const CODE: &str = r##"print("hello")"##;
    let ast = ParseString(CODE).unwrap();
    let print = "print".to_owned();
    let args = vec![Type::Str("hello".to_owned())];
    let expected = vec![Type::Call { callee: print, arguments: args }];
    assert_eq!(ast, expected);

    println!("beginning second test");
    const CODE2: &str = r##"print("hello");"##;
    let ast = ParseString(CODE2).unwrap();
    assert_eq!(ast, expected);
}

#[test]
pub fn function_nested() {
    const CODE: &str = r##"print(anchor(10,"hello", pop()))"##;
    let ast = ParseString(CODE).unwrap();

    let hello = Type::Str("hello".to_owned());
    let ten = Type::Number(10);

    let arg_0 = vec![ten, hello, Type::Call { callee: "pop".to_owned(), arguments: vec![] }];
    let arg_1 = vec![Type::Call { callee: "anchor".to_owned(), arguments: arg_0 }];
    let expected = vec![Type::Call { callee: "print".to_owned(), arguments: arg_1 }];
    assert_eq!(ast, expected);
}

#[test]
pub fn functional() {
    println!("beginning first test");
    const BASIC: &str = r##"$ test 10 "hello""##;
    let ast = ParseString(BASIC).unwrap();
    let hello = Type::Str("hello".to_owned());
    let ten = Type::Number(10);

    let expected = vec![Type::Call { callee: "test".to_owned(), arguments: vec![ten, hello] }];

    assert_eq!(ast, expected);

    println!("beginning second test");
    const BASIC2: &str = r##"$ test  10   "hello"   "##;
    let ast = ParseString(BASIC2).unwrap();
    assert_eq!(ast, expected);
}

#[test]
pub fn function() {
    const BASIC: &str = r##"fn print(){

    }"##;

    let ast = ParseString(BASIC).unwrap();
    let function = Type::CreateFunction {
        name: "print".to_owned(),
        code: Vec::new(),
        parameters: Vec::new(),
    };
    let expected = vec![function];
    assert_eq!(ast, expected);
}

#[test]
pub fn assignment() {
    const BASIC: &str = r##"y = 20;"##;
    let ast = ParseString(BASIC).unwrap();
    let function = Type::Assignment {
        variable: "y".to_owned(),
        value: Box::new(Type::Number(20)),
    };
    let expected = vec![function];
    assert_eq!(ast, expected);
}

#[test]
pub fn declaration() {
    const BASIC: &str = r##"let y = 20;"##;
    let ast = ParseString(BASIC).unwrap();
    let function = Type::VariableDeclaration {
        variable: "y".to_owned(),
        value: Box::new(Type::Number(20)),
    };
    let expected = vec![function];
    assert_eq!(ast, expected);
}

#[test]
pub fn declaration_and_assignment() {
    const BASIC: &str = r##"let y = 20;
    y = 10;
    let x = "hello";
    x = "hi";
    "##;
    let ast = ParseString(BASIC).unwrap();
    let mut expected = vec![];

    expected.push(Type::VariableDeclaration {
        variable: "y".to_owned(),
        value: Box::new(Type::Number(20)),
    });
    expected.push(Type::Assignment { variable: "y".to_owned(), value: Box::new(Type::Number(10)) });

    expected.push(Type::VariableDeclaration {
        variable: "x".to_owned(),
        value: Box::new(Type::Str("hello".into())),
    });
    expected.push(Type::Assignment {
        variable: "x".to_owned(),
        value: Box::new(Type::Str("hi".into())),
    });

    assert_eq!(ast, expected);
}
