//! AST node shapes shared by the parser and the evaluator, together with the
//! ghost model (`TypeM`) that contracts are stated over.

use vstd::prelude::*;

verus! {

broadcast use vstd::std_specs::vec::group_vec_axioms;

/// The built-in natives the host can register under a name.  The language's
/// operators desugar to calls on reserved symbols; the host wires each symbol
/// to one of these.
#[derive(Clone, Copy, Debug, PartialEq, Eq, Structural)]
pub enum NativeKind {
    /// Renders its arguments, joins them with one space, appends the line to
    /// the interpreter's output channel.
    Print,
    /// Parses its first argument's rendering as a number literal.
    ToNumber,
    Add,
    Subtract,
    Multiply,
    Divide,
    Power,
    Modulo,
    Equals,
    NotEquals,
    LessThanOrEquals,
    GreaterThanOrEquals,
    LessThan,
    GreaterThan,
    And,
    Or,
    Not,
}

/// A host-registered native callable: a selector into the closed built-in set.
#[derive(Clone, Copy, Debug, PartialEq, Eq, Structural)]
pub struct Func(pub NativeKind);

impl Func {
    pub fn new(kind: NativeKind) -> (r: Func)
        ensures
            r == Func(kind),
    {
        Func(kind)
    }
}

/// A function value: either a user function closing over a scope (held as an
/// index into the interpreter's scope arena), or a registered native with a
/// minimum argument count.
#[derive(Debug, PartialEq, Eq)]
pub enum FunctionTypes {
    NormalFunction { code: Vec<Type>, scope: usize, parameters: Vec<String> },
    BuiltIn { function: Func, parameters: u8 },
}

/// One AST node.  The same enum doubles as the runtime value representation:
/// `Number`, `Bool`, `Str` and `Function` are the value shapes, every other
/// variant is a program shape.
#[derive(Debug, PartialEq, Eq)]
pub enum Type {
    Number(i64),
    Bool(bool),
    Symbol(String),
    Str(String),
    Call { callee: String, arguments: Vec<Type> },
    VariableDeclaration { variable: String, value: Box<Type> },
    Assignment { variable: String, value: Box<Type> },
    CreateFunction { name: String, code: Vec<Type>, parameters: Vec<String> },
    Function(FunctionTypes),
    Conditional { condition: Box<Type>, then: Vec<Type>, otherwise: Option<Vec<Type>> },
    While { condition: Box<Type>, code: Vec<Type> },
    Invocation { code: Vec<Type> },
    Comment(String),
}

/// Clones every node of a statement list, preserving the model.
pub(crate) fn clone_nodes(v: &Vec<Type>) -> (r: Vec<Type>)
    ensures
        nodes_view(r@) == nodes_view(v@),
    decreases v@,
{
    let mut r: Vec<Type> = Vec::new();
    let n = v.len();
    for i in 0..n
        invariant
            n == v.len(),
            r@.len() == i,
            forall|j: int| 0 <= j < i ==> node_view(r@[j]) == node_view(v@[j]),
        decreases n - i,
    {
        proof {
            assert(decreases_to!(v@ => v@[i as int]));
        }
        r.push(v[i].clone());
    }
    proof {
        assert(nodes_view(r@) =~= nodes_view(v@));
    }
    r
}

impl Clone for FunctionTypes {
    fn clone(&self) -> (r: Self)
        ensures
            fun_view(r) == fun_view(*self),
        decreases *self,
    {
        match self {
            FunctionTypes::NormalFunction { code, scope, parameters } => {
                proof {
                    assert(decreases_to!(*self => *code));
                    assert(decreases_to!(*code => code@));
                }
                let p = parameters.clone();
                proof {
                    assert(strings_view(p@) =~= strings_view(parameters@));
                }
                FunctionTypes::NormalFunction { code: clone_nodes(code), scope: *scope, parameters: p }
            },
            FunctionTypes::BuiltIn { function, parameters } => FunctionTypes::BuiltIn {
                function: *function,
                parameters: *parameters,
            },
        }
    }
}

impl Clone for Type {
    fn clone(&self) -> (r: Self)
        ensures
            node_view(r) == node_view(*self),
        decreases *self,
    {
        match self {
            Type::Number(n) => Type::Number(*n),
            Type::Bool(b) => Type::Bool(*b),
            Type::Symbol(s) => Type::Symbol(s.clone()),
            Type::Str(s) => Type::Str(s.clone()),
            Type::Call { callee, arguments } => {
                proof {
                    assert(decreases_to!(*self => *arguments));
                    assert(decreases_to!(*arguments => arguments@));
                }
                Type::Call { callee: callee.clone(), arguments: clone_nodes(arguments) }
            },
            Type::VariableDeclaration { variable, value } => Type::VariableDeclaration {
                variable: variable.clone(),
                value: Box::new((&**value).clone()),
            },
            Type::Assignment { variable, value } => Type::Assignment {
                variable: variable.clone(),
                value: Box::new((&**value).clone()),
            },
            Type::CreateFunction { name, code, parameters } => {
                proof {
                    assert(decreases_to!(*self => *code));
                    assert(decreases_to!(*code => code@));
                }
                let p = parameters.clone();
                proof {
                    assert(strings_view(p@) =~= strings_view(parameters@));
                }
                Type::CreateFunction { name: name.clone(), code: clone_nodes(code), parameters: p }
            },
            Type::Function(f) => Type::Function(f.clone()),
            Type::Conditional { condition, then, otherwise } => {
                proof {
                    assert(decreases_to!(*self => *then));
                    assert(decreases_to!(*then => then@));
                }
                let o = match otherwise {
                    Option::Some(o) => {
                        proof {
                            assert(decreases_to!(*self => *o));
                            assert(decreases_to!(*o => o@));
                        }
                        Option::Some(clone_nodes(o))
                    },
                    Option::None => Option::None,
                };
                Type::Conditional {
                    condition: Box::new((&**condition).clone()),
                    then: clone_nodes(then),
                    otherwise: o,
                }
            },
            Type::While { condition, code } => {
                proof {
                    assert(decreases_to!(*self => *code));
                    assert(decreases_to!(*code => code@));
                }
                Type::While {
                    condition: Box::new((&**condition).clone()),
                    code: clone_nodes(code),
                }
            },
            Type::Invocation { code } => {
                proof {
                    assert(decreases_to!(*self => *code));
                    assert(decreases_to!(*code => code@));
                }
                Type::Invocation { code: clone_nodes(code) }
            },
            Type::Comment(s) => Type::Comment(s.clone()),
        }
    }
}

/// Ghost model of a function value.
pub ghost enum FunM {
    NormalFunction { code: Seq<TypeM>, scope: int, parameters: Seq<Seq<char>> },
    BuiltIn { kind: NativeKind, min_args: int },
}

/// Ghost model of an AST node / runtime value.
pub ghost enum TypeM {
    Number(int),
    Bool(bool),
    Symbol(Seq<char>),
    Str(Seq<char>),
    Call { callee: Seq<char>, arguments: Seq<TypeM> },
    VariableDeclaration { variable: Seq<char>, value: Box<TypeM> },
    Assignment { variable: Seq<char>, value: Box<TypeM> },
    CreateFunction { name: Seq<char>, code: Seq<TypeM>, parameters: Seq<Seq<char>> },
    Function(FunM),
    Conditional { condition: Box<TypeM>, then: Seq<TypeM>, otherwise: Option<Seq<TypeM>> },
    While { condition: Box<TypeM>, code: Seq<TypeM> },
    Invocation { code: Seq<TypeM> },
    Comment(Seq<char>),
}

/// Model of one node.
pub open spec fn node_view(t: Type) -> TypeM
    decreases t,
{
    match t {
        Type::Number(n) => TypeM::Number(n as int),
        Type::Bool(b) => TypeM::Bool(b),
        Type::Symbol(s) => TypeM::Symbol(s@),
        Type::Str(s) => TypeM::Str(s@),
        Type::Call { callee, arguments } => TypeM::Call {
            callee: callee@,
            arguments: nodes_view(arguments@),
        },
        Type::VariableDeclaration { variable, value } => TypeM::VariableDeclaration {
            variable: variable@,
            value: Box::new(node_view(*value)),
        },
        Type::Assignment { variable, value } => TypeM::Assignment {
            variable: variable@,
            value: Box::new(node_view(*value)),
        },
        Type::CreateFunction { name, code, parameters } => TypeM::CreateFunction {
            name: name@,
            code: nodes_view(code@),
            parameters: strings_view(parameters@),
        },
        Type::Function(f) => TypeM::Function(fun_view(f)),
        Type::Conditional { condition, then, otherwise } => TypeM::Conditional {
            condition: Box::new(node_view(*condition)),
            then: nodes_view(then@),
            otherwise: match otherwise {
                Option::Some(o) => Option::Some(nodes_view(o@)),
                Option::None => Option::None,
            },
        },
        Type::While { condition, code } => TypeM::While {
            condition: Box::new(node_view(*condition)),
            code: nodes_view(code@),
        },
        Type::Invocation { code } => TypeM::Invocation { code: nodes_view(code@) },
        Type::Comment(s) => TypeM::Comment(s@),
    }
}

/// Model of a sequence of nodes.  The range guard keeps the recursion
/// well-founded; out-of-range indices are never used by `Seq::new`.
pub open spec fn nodes_view(s: Seq<Type>) -> Seq<TypeM>
    decreases s,
{
    Seq::new(
        s.len(),
        |i: int|
            if 0 <= i < s.len() {
                node_view(s[i])
            } else {
                TypeM::Comment(Seq::empty())
            },
    )
}

/// Model of a sequence of names.
pub open spec fn strings_view(s: Seq<String>) -> Seq<Seq<char>> {
    Seq::new(s.len(), |i: int| s[i]@)
}

/// Model of a function value.
pub open spec fn fun_view(f: FunctionTypes) -> FunM
    decreases f,
{
    match f {
        FunctionTypes::NormalFunction { code, scope, parameters } => FunM::NormalFunction {
            code: nodes_view(code@),
            scope: scope as int,
            parameters: strings_view(parameters@),
        },
        FunctionTypes::BuiltIn { function, parameters } => FunM::BuiltIn {
            kind: function.0,
            min_args: parameters as int,
        },
    }
}

} // verus!
