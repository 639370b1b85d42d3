//! The built-in natives: the operator dispatch table the reserved symbols
//! (`__add__`, `__eq__`, ...) are wired to, plus `print` and `number`.

use vstd::prelude::*;

use crate::ast::{node_view, nodes_view, strings_view, FunctionTypes, NativeKind, Type, TypeM};
use crate::render::{int_str, int_to_string, render, string_from_chars};
use crate::Error;

verus! {

broadcast use vstd::std_specs::vec::group_vec_axioms;

/// Whether a mathematical integer is representable as a machine number.
pub open spec fn in_i64(n: int) -> bool {
    i64::MIN <= n <= i64::MAX
}

/// Truncating division (rounds toward zero), defined for `d != 0`.
pub open spec fn div_trunc(x: int, d: int) -> int {
    if x == 0 {
        0
    } else if x > 0 && d > 0 {
        x / d
    } else if x < 0 && d < 0 {
        (x * -1) / (d * -1)
    } else if x < 0 {
        ((x * -1) / d) * -1
    } else {
        (x / (d * -1)) * -1
    }
}

/// Truncating remainder (takes the sign of the dividend), for `d != 0`.
pub open spec fn rem_trunc(x: int, d: int) -> int {
    if x == 0 {
        0
    } else if x > 0 && d > 0 {
        x % d
    } else if x < 0 && d < 0 {
        ((x * -1) % (d * -1)) * -1
    } else if x < 0 {
        ((x * -1) % d) * -1
    } else {
        x % (d * -1)
    }
}

/// Integer exponentiation with a non-negative exponent.
pub open spec fn pow_int(a: int, b: nat) -> int
    decreases b,
{
    if b == 0 {
        1
    } else {
        a * pow_int(a, (b - 1) as nat)
    }
}

/// A string repeated `n` times (`n <= 0` gives the empty string).
pub open spec fn repeat_str(s: Seq<char>, n: int) -> Seq<char>
    decreases n,
{
    if n <= 0 {
        Seq::empty()
    } else {
        repeat_str(s, n - 1) + s
    }
}

/// Model of an operator's result.
pub open spec fn val_res_view(r: Result<Type, Error>) -> Result<TypeM, Error> {
    match r {
        Result::Ok(v) => Result::Ok(node_view(v)),
        Result::Err(e) => Result::Err(e),
    }
}

/// Addition: numbers add; strings concatenate; a string and a number
/// concatenate with the number rendered in decimal.
pub open spec fn spec_add(x: TypeM, y: TypeM) -> Result<TypeM, Error> {
    match (x, y) {
        (TypeM::Number(a), TypeM::Number(b)) => if in_i64(a + b) {
            Result::Ok(TypeM::Number(a + b))
        } else {
            Result::Err(Error::ArithmeticError)
        },
        (TypeM::Str(a), TypeM::Str(b)) => Result::Ok(TypeM::Str(a + b)),
        (TypeM::Str(a), TypeM::Number(b)) => Result::Ok(TypeM::Str(a + int_str(b))),
        (TypeM::Number(a), TypeM::Str(b)) => Result::Ok(TypeM::Str(int_str(a) + b)),
        _ => Result::Err(Error::TypeError),
    }
}

/// Subtraction: numbers only.
pub open spec fn spec_subtract(x: TypeM, y: TypeM) -> Result<TypeM, Error> {
    match (x, y) {
        (TypeM::Number(a), TypeM::Number(b)) => if in_i64(a - b) {
            Result::Ok(TypeM::Number(a - b))
        } else {
            Result::Err(Error::ArithmeticError)
        },
        _ => Result::Err(Error::TypeError),
    }
}

/// Multiplication: numbers multiply; a string times a number repeats the
/// string, with a negative count giving the empty string.
pub open spec fn spec_multiply(x: TypeM, y: TypeM) -> Result<TypeM, Error> {
    match (x, y) {
        (TypeM::Number(a), TypeM::Number(b)) => if in_i64(a * b) {
            Result::Ok(TypeM::Number(a * b))
        } else {
            Result::Err(Error::ArithmeticError)
        },
        (TypeM::Str(a), TypeM::Number(b)) => Result::Ok(TypeM::Str(repeat_str(a, b))),
        (TypeM::Number(a), TypeM::Str(b)) => Result::Ok(TypeM::Str(repeat_str(b, a))),
        _ => Result::Err(Error::TypeError),
    }
}

/// Division: numbers only, truncating; division by zero and an
/// unrepresentable quotient are arithmetic errors.
pub open spec fn spec_divide(x: TypeM, y: TypeM) -> Result<TypeM, Error> {
    match (x, y) {
        (TypeM::Number(a), TypeM::Number(b)) => if b == 0 || !in_i64(div_trunc(a, b)) {
            Result::Err(Error::ArithmeticError)
        } else {
            Result::Ok(TypeM::Number(div_trunc(a, b)))
        },
        _ => Result::Err(Error::TypeError),
    }
}

/// Exponentiation: numbers only, with a non-negative exponent.
pub open spec fn spec_power(x: TypeM, y: TypeM) -> Result<TypeM, Error> {
    match (x, y) {
        (TypeM::Number(a), TypeM::Number(b)) => if b < 0 || !in_i64(pow_int(a, b as nat)) {
            Result::Err(Error::ArithmeticError)
        } else {
            Result::Ok(TypeM::Number(pow_int(a, b as nat)))
        },
        _ => Result::Err(Error::TypeError),
    }
}

/// Remainder: numbers only, truncating (sign of the dividend); a zero
/// divisor is an arithmetic error.
pub open spec fn spec_modulo(x: TypeM, y: TypeM) -> Result<TypeM, Error> {
    match (x, y) {
        (TypeM::Number(a), TypeM::Number(b)) => if b == 0 {
            Result::Err(Error::ArithmeticError)
        } else {
            Result::Ok(TypeM::Number(rem_trunc(a, b)))
        },
        _ => Result::Err(Error::TypeError),
    }
}

/// Structural value comparison; defined for every pair of values.
pub open spec fn spec_equals(x: TypeM, y: TypeM) -> Result<TypeM, Error> {
    Result::Ok(TypeM::Bool(x == y))
}

/// Structural value disequality; defined for every pair of values.
pub open spec fn spec_not_equals(x: TypeM, y: TypeM) -> Result<TypeM, Error> {
    Result::Ok(TypeM::Bool(x != y))
}

/// Numeric comparison.
pub open spec fn spec_compare(x: TypeM, y: TypeM, kind: NativeKind) -> Result<TypeM, Error> {
    match (x, y) {
        (TypeM::Number(a), TypeM::Number(b)) => Result::Ok(
            TypeM::Bool(
                match kind {
                    NativeKind::LessThanOrEquals => a <= b,
                    NativeKind::GreaterThanOrEquals => a >= b,
                    NativeKind::LessThan => a < b,
                    _ => a > b,
                },
            ),
        ),
        _ => Result::Err(Error::TypeError),
    }
}

/// Boolean conjunction.
pub open spec fn spec_and(x: TypeM, y: TypeM) -> Result<TypeM, Error> {
    match (x, y) {
        (TypeM::Bool(a), TypeM::Bool(b)) => Result::Ok(TypeM::Bool(a && b)),
        _ => Result::Err(Error::TypeError),
    }
}

/// Boolean disjunction.
pub open spec fn spec_or(x: TypeM, y: TypeM) -> Result<TypeM, Error> {
    match (x, y) {
        (TypeM::Bool(a), TypeM::Bool(b)) => Result::Ok(TypeM::Bool(a || b)),
        _ => Result::Err(Error::TypeError),
    }
}

/// Boolean negation.
pub open spec fn spec_not(x: TypeM) -> Result<TypeM, Error> {
    match x {
        TypeM::Bool(a) => Result::Ok(TypeM::Bool(!a)),
        _ => Result::Err(Error::TypeError),
    }
}

/// |pow| at least doubles with every further factor once |a| >= 2.
proof fn lemma_pow_abs_grows(a: int, i: nat, b: nat)
    requires
        a <= -2 || 2 <= a,
        i < b,
    ensures
        vstd::math::abs(pow_int(a, b)) >= 2 * vstd::math::abs(pow_int(a, i)),
    decreases b,
{
    assert(pow_int(a, b) == a * pow_int(a, (b - 1) as nat));
    if i == b - 1 {
        assert(vstd::math::abs(a * pow_int(a, i)) >= 2 * vstd::math::abs(pow_int(a, i)))
            by (nonlinear_arith)
            requires
                a <= -2 || 2 <= a,
        ;
    } else {
        lemma_pow_abs_grows(a, i, (b - 1) as nat);
        assert(vstd::math::abs(a * pow_int(a, (b - 1) as nat)) >= 2 * vstd::math::abs(
            pow_int(a, (b - 1) as nat),
        )) by (nonlinear_arith)
            requires
                a <= -2 || 2 <= a,
        ;
    }
}

/// Repeats a string `n` times.
fn repeat_string(s: &String, n: i64) -> (r: String)
    ensures
        r@ == repeat_str(s@, n as int),
{
    let mut acc = String::new();
    if n <= 0 {
        proof {
            assert(acc@ =~= repeat_str(s@, n as int));
        }
        return acc;
    }
    let bound = n as u64;
    let mut i: u64 = 0;
    while i < bound
        invariant
            i <= bound,
            acc@ == repeat_str(s@, i as int),
        decreases bound - i,
    {
        acc.append(s.as_str());
        i = i + 1;
    }
    acc
}

/// Whether two name lists are equal.
fn strings_eq(x: &Vec<String>, y: &Vec<String>) -> (r: bool)
    ensures
        r == (strings_view(x@) == strings_view(y@)),
{
    if x.len() != y.len() {
        proof {
            assert(strings_view(x@).len() != strings_view(y@).len());
        }
        return false;
    }
    let n = x.len();
    for i in 0..n
        invariant
            n == x.len() == y.len(),
            forall|j: int| 0 <= j < i ==> x@[j]@ == y@[j]@,
    {
        if !x[i].eq(&y[i]) {
            proof {
                assert(strings_view(x@)[i as int] != strings_view(y@)[i as int]);
            }
            return false;
        }
    }
    proof {
        assert(strings_view(x@) =~= strings_view(y@));
    }
    true
}

/// Whether two statement lists are structurally equal.
fn nodes_eq(x: &Vec<Type>, y: &Vec<Type>) -> (r: bool)
    ensures
        r == (nodes_view(x@) == nodes_view(y@)),
    decreases x@,
{
    if x.len() != y.len() {
        proof {
            assert(nodes_view(x@).len() != nodes_view(y@).len());
        }
        return false;
    }
    let n = x.len();
    for i in 0..n
        invariant
            n == x.len() == y.len(),
            forall|j: int| 0 <= j < i ==> node_view(x@[j]) == node_view(y@[j]),
        decreases n - i,
    {
        proof {
            assert(decreases_to!(x@ => x@[i as int]));
        }
        if !type_eq(&x[i], &y[i]) {
            proof {
                assert(nodes_view(x@)[i as int] != nodes_view(y@)[i as int]);
            }
            return false;
        }
    }
    proof {
        assert(nodes_view(x@) =~= nodes_view(y@));
    }
    true
}

/// Whether two function values are structurally equal.
fn fun_eq(x: &FunctionTypes, y: &FunctionTypes) -> (r: bool)
    ensures
        r == (crate::ast::fun_view(*x) == crate::ast::fun_view(*y)),
    decreases *x,
{
    match (x, y) {
        (
            FunctionTypes::NormalFunction { code: cx, scope: sx, parameters: px },
            FunctionTypes::NormalFunction { code: cy, scope: sy, parameters: py },
        ) => {
            proof {
                assert(decreases_to!(*x => *cx));
                assert(decreases_to!(*cx => cx@));
            }
            *sx == *sy && strings_eq(px, py) && nodes_eq(cx, cy)
        },
        (
            FunctionTypes::BuiltIn { function: fx, parameters: px },
            FunctionTypes::BuiltIn { function: fy, parameters: py },
        ) => fx.0 == fy.0 && *px == *py,
        _ => false,
    }
}

/// Whether two nodes (or values) are structurally equal: the meaning of the
/// language's `==` operator.
pub fn type_eq(a: &Type, b: &Type) -> (r: bool)
    ensures
        r == (node_view(*a) == node_view(*b)),
    decreases *a,
{
    match a {
        Type::Number(x) => match b {
            Type::Number(y) => *x == *y,
            _ => false,
        },
        Type::Bool(x) => match b {
            Type::Bool(y) => *x == *y,
            _ => false,
        },
        Type::Symbol(x) => match b {
            Type::Symbol(y) => x.eq(y),
            _ => false,
        },
        Type::Str(x) => match b {
            Type::Str(y) => x.eq(y),
            _ => false,
        },
        Type::Call { callee: cx, arguments: ax } => match b {
            Type::Call { callee: cy, arguments: ay } => {
                proof {
                    assert(decreases_to!(*a => *ax));
                    assert(decreases_to!(*ax => ax@));
                }
                cx.eq(cy) && nodes_eq(ax, ay)
            },
            _ => false,
        },
        Type::VariableDeclaration { variable: vx, value: ex } => match b {
            Type::VariableDeclaration { variable: vy, value: ey } => vx.eq(vy) && type_eq(
                &**ex,
                &**ey,
            ),
            _ => false,
        },
        Type::Assignment { variable: vx, value: ex } => match b {
            Type::Assignment { variable: vy, value: ey } => vx.eq(vy) && type_eq(&**ex, &**ey),
            _ => false,
        },
        Type::CreateFunction { name: nx, code: cx, parameters: px } => match b {
            Type::CreateFunction { name: ny, code: cy, parameters: py } => {
                proof {
                    assert(decreases_to!(*a => *cx));
                    assert(decreases_to!(*cx => cx@));
                }
                nx.eq(ny) && strings_eq(px, py) && nodes_eq(cx, cy)
            },
            _ => false,
        },
        Type::Function(fx) => match b {
            Type::Function(fy) => fun_eq(fx, fy),
            _ => false,
        },
        Type::Conditional { condition: cx, then: tx, otherwise: ox } => match b {
            Type::Conditional { condition: cy, then: ty, otherwise: oy } => {
                proof {
                    assert(decreases_to!(*a => *tx));
                    assert(decreases_to!(*tx => tx@));
                }
                let rest = match (ox, oy) {
                    (Option::Some(vx), Option::Some(vy)) => {
                        proof {
                            assert(decreases_to!(*a => *vx));
                            assert(decreases_to!(*vx => vx@));
                        }
                        nodes_eq(vx, vy)
                    },
                    (Option::None, Option::None) => true,
                    _ => false,
                };
                type_eq(&**cx, &**cy) && nodes_eq(tx, ty) && rest
            },
            _ => false,
        },
        Type::While { condition: cx, code: bx } => match b {
            Type::While { condition: cy, code: by } => {
                proof {
                    assert(decreases_to!(*a => *bx));
                    assert(decreases_to!(*bx => bx@));
                }
                type_eq(&**cx, &**cy) && nodes_eq(bx, by)
            },
            _ => false,
        },
        Type::Invocation { code: bx } => match b {
            Type::Invocation { code: by } => {
                proof {
                    assert(decreases_to!(*a => *bx));
                    assert(decreases_to!(*bx => bx@));
                }
                nodes_eq(bx, by)
            },
            _ => false,
        },
        Type::Comment(x) => match b {
            Type::Comment(y) => x.eq(y),
            _ => false,
        },
    }
}

impl Type {
    /// The `+` operator.
    #[allow(non_snake_case)]
    pub fn Add(x: &Type, y: &Type) -> (r: Result<Type, Error>)
        ensures
            val_res_view(r) == spec_add(node_view(*x), node_view(*y)),
    {
        match (x, y) {
            (Type::Number(a), Type::Number(b)) => match a.checked_add(*b) {
                Option::Some(s) => Result::Ok(Type::Number(s)),
                Option::None => Result::Err(Error::ArithmeticError),
            },
            (Type::Str(a), Type::Str(b)) => Result::Ok(Type::Str(a.clone().concat(b.as_str()))),
            (Type::Str(a), Type::Number(b)) => Result::Ok(
                Type::Str(a.clone().concat(int_to_string(*b).as_str())),
            ),
            (Type::Number(a), Type::Str(b)) => Result::Ok(
                Type::Str(int_to_string(*a).concat(b.as_str())),
            ),
            _ => Result::Err(Error::TypeError),
        }
    }

    /// The `-` operator.
    #[allow(non_snake_case)]
    pub fn Subtract(x: &Type, y: &Type) -> (r: Result<Type, Error>)
        ensures
            val_res_view(r) == spec_subtract(node_view(*x), node_view(*y)),
    {
        match (x, y) {
            (Type::Number(a), Type::Number(b)) => match a.checked_sub(*b) {
                Option::Some(s) => Result::Ok(Type::Number(s)),
                Option::None => Result::Err(Error::ArithmeticError),
            },
            _ => Result::Err(Error::TypeError),
        }
    }

    /// The `*` operator.
    #[allow(non_snake_case)]
    pub fn Multiply(x: &Type, y: &Type) -> (r: Result<Type, Error>)
        ensures
            val_res_view(r) == spec_multiply(node_view(*x), node_view(*y)),
    {
        match (x, y) {
            (Type::Number(a), Type::Number(b)) => match a.checked_mul(*b) {
                Option::Some(s) => Result::Ok(Type::Number(s)),
                Option::None => Result::Err(Error::ArithmeticError),
            },
            (Type::Str(a), Type::Number(b)) => Result::Ok(Type::Str(repeat_string(a, *b))),
            (Type::Number(a), Type::Str(b)) => Result::Ok(Type::Str(repeat_string(b, *a))),
            _ => Result::Err(Error::TypeError),
        }
    }

    /// The `/` operator.
    #[allow(non_snake_case)]
    pub fn Divide(x: &Type, y: &Type) -> (r: Result<Type, Error>)
        ensures
            val_res_view(r) == spec_divide(node_view(*x), node_view(*y)),
    {
        match (x, y) {
            (Type::Number(a), Type::Number(b)) => match a.checked_div(*b) {
                Option::Some(q) => Result::Ok(Type::Number(q)),
                Option::None => Result::Err(Error::ArithmeticError),
            },
            _ => Result::Err(Error::TypeError),
        }
    }

    /// The `**` operator.
    #[allow(non_snake_case)]
    pub fn Power(x: &Type, y: &Type) -> (r: Result<Type, Error>)
        ensures
            val_res_view(r) == spec_power(node_view(*x), node_view(*y)),
    {
        match (x, y) {
            (Type::Number(a), Type::Number(b)) => {
                let a = *a;
                let b = *b;
                if b < 0 {
                    return Result::Err(Error::ArithmeticError);
                }
                if b == 0 {
                    return Result::Ok(Type::Number(1));
                }
                if a == 0 {
                    proof {
                        lemma_pow_zero_base(b as nat);
                    }
                    return Result::Ok(Type::Number(0));
                }
                if a == 1 {
                    proof {
                        lemma_pow_one_base(b as nat);
                    }
                    return Result::Ok(Type::Number(1));
                }
                if a == -1 {
                    proof {
                        lemma_pow_neg_one_base(b as nat);
                    }
                    return Result::Ok(Type::Number(if b % 2 == 0 { 1 } else { -1 }));
                }
                let mut acc: i64 = 1;
                let mut i: i64 = 0;
                while i < b
                    invariant
                        0 <= i <= b,
                        a <= -2 || 2 <= a,
                        acc as int == pow_int(a as int, i as nat),
                        node_view(*x) == TypeM::Number(a as int),
                        node_view(*y) == TypeM::Number(b as int),
                    decreases b - i,
                {
                    proof {
                        assert(pow_int(a as int, (i + 1) as nat) == a as int * pow_int(
                            a as int,
                            i as nat,
                        ));
                        assert(acc as int * a as int == a as int * acc as int) by (nonlinear_arith);
                    }
                    match acc.checked_mul(a) {
                        Option::Some(m) => {
                            acc = m;
                        },
                        Option::None => {
                            proof {
                                let p1 = pow_int(a as int, (i + 1) as nat);
                                let pb = pow_int(a as int, b as nat);
                                assert(p1 > i64::MAX || p1 < i64::MIN);
                                assert(vstd::math::abs(p1) > i64::MAX);
                                if i + 1 < b {
                                    lemma_pow_abs_grows(a as int, (i + 1) as nat, b as nat);
                                    assert(vstd::math::abs(pb) >= 2 * vstd::math::abs(p1));
                                    assert(pb > i64::MAX || pb < i64::MIN);
                                } else {
                                    assert(b as nat == (i + 1) as nat);
                                    assert(pb == p1);
                                }
                                assert(!in_i64(pb));
                            }
                            return Result::Err(Error::ArithmeticError);
                        },
                    }
                    i = i + 1;
                }
                Result::Ok(Type::Number(acc))
            },
            _ => Result::Err(Error::TypeError),
        }
    }

    /// The `%` operator.
    #[allow(non_snake_case)]
    pub fn Modulo(x: &Type, y: &Type) -> (r: Result<Type, Error>)
        ensures
            val_res_view(r) == spec_modulo(node_view(*x), node_view(*y)),
    {
        match (x, y) {
            (Type::Number(a), Type::Number(b)) => {
                if *b == 0 {
                    return Result::Err(Error::ArithmeticError);
                }
                if *b == -1 {
                    proof {
                        assert(rem_trunc(a as int, -1) == 0) by {
                            if a as int > 0 {
                                assert((a as int) % 1 == 0);
                            } else if (a as int) < 0 {
                                assert(((a as int) * -1) % 1 == 0);
                            }
                        }
                    }
                    return Result::Ok(Type::Number(0));
                }
                match a.checked_rem(*b) {
                    Option::Some(m) => Result::Ok(Type::Number(m)),
                    Option::None => Result::Err(Error::ArithmeticError),
                }
            },
            _ => Result::Err(Error::TypeError),
        }
    }

    /// The `==` operator; well-defined on every pair of values.
    #[allow(non_snake_case)]
    pub fn Equals(x: &Type, y: &Type) -> (r: Result<Type, Error>)
        ensures
            val_res_view(r) == spec_equals(node_view(*x), node_view(*y)),
    {
        Result::Ok(Type::Bool(type_eq(x, y)))
    }

    /// The `!=` operator; well-defined on every pair of values.
    #[allow(non_snake_case)]
    pub fn NotEquals(x: &Type, y: &Type) -> (r: Result<Type, Error>)
        ensures
            val_res_view(r) == spec_not_equals(node_view(*x), node_view(*y)),
    {
        Result::Ok(Type::Bool(!type_eq(x, y)))
    }

    /// The `<=` operator.
    #[allow(non_snake_case)]
    pub fn LessThanOrEquals(x: &Type, y: &Type) -> (r: Result<Type, Error>)
        ensures
            val_res_view(r) == spec_compare(
                node_view(*x),
                node_view(*y),
                NativeKind::LessThanOrEquals,
            ),
    {
        match (x, y) {
            (Type::Number(a), Type::Number(b)) => Result::Ok(Type::Bool(*a <= *b)),
            _ => Result::Err(Error::TypeError),
        }
    }

    /// The `>=` operator.
    #[allow(non_snake_case)]
    pub fn GreaterThanOrEquals(x: &Type, y: &Type) -> (r: Result<Type, Error>)
        ensures
            val_res_view(r) == spec_compare(
                node_view(*x),
                node_view(*y),
                NativeKind::GreaterThanOrEquals,
            ),
    {
        match (x, y) {
            (Type::Number(a), Type::Number(b)) => Result::Ok(Type::Bool(*a >= *b)),
            _ => Result::Err(Error::TypeError),
        }
    }

    /// The `<` operator.
    #[allow(non_snake_case)]
    pub fn LessThan(x: &Type, y: &Type) -> (r: Result<Type, Error>)
        ensures
            val_res_view(r) == spec_compare(node_view(*x), node_view(*y), NativeKind::LessThan),
    {
        match (x, y) {
            (Type::Number(a), Type::Number(b)) => Result::Ok(Type::Bool(*a < *b)),
            _ => Result::Err(Error::TypeError),
        }
    }

    /// The `>` operator.
    #[allow(non_snake_case)]
    pub fn GreaterThan(x: &Type, y: &Type) -> (r: Result<Type, Error>)
        ensures
            val_res_view(r) == spec_compare(node_view(*x), node_view(*y), NativeKind::GreaterThan),
    {
        match (x, y) {
            (Type::Number(a), Type::Number(b)) => Result::Ok(Type::Bool(*a > *b)),
            _ => Result::Err(Error::TypeError),
        }
    }

    /// The `&&` operator.
    #[allow(non_snake_case)]
    pub fn And(x: &Type, y: &Type) -> (r: Result<Type, Error>)
        ensures
            val_res_view(r) == spec_and(node_view(*x), node_view(*y)),
    {
        match (x, y) {
            (Type::Bool(a), Type::Bool(b)) => Result::Ok(Type::Bool(*a && *b)),
            _ => Result::Err(Error::TypeError),
        }
    }

    /// The `||` operator.
    #[allow(non_snake_case)]
    pub fn Or(x: &Type, y: &Type) -> (r: Result<Type, Error>)
        ensures
            val_res_view(r) == spec_or(node_view(*x), node_view(*y)),
    {
        match (x, y) {
            (Type::Bool(a), Type::Bool(b)) => Result::Ok(Type::Bool(*a || *b)),
            _ => Result::Err(Error::TypeError),
        }
    }

    /// The unary `!` operator.
    #[allow(non_snake_case)]
    pub fn Not(x: &Type) -> (r: Result<Type, Error>)
        ensures
            val_res_view(r) == spec_not(node_view(*x)),
    {
        match x {
            Type::Bool(a) => Result::Ok(Type::Bool(!*a)),
            _ => Result::Err(Error::TypeError),
        }
    }
}

/// Whether `c` is a decimal digit.
pub open spec fn is_digit(c: char) -> bool {
    48 <= c as int <= 57
}

/// The value of a digit character.
pub open spec fn digit_val(c: char) -> int {
    c as int - 48
}

/// Whether every character is a decimal digit.
pub open spec fn all_digits(s: Seq<char>) -> bool {
    forall|i: int| 0 <= i < s.len() ==> is_digit(#[trigger] s[i])
}

/// The value of a digit string, most significant digit first.
pub open spec fn digits_val(s: Seq<char>) -> int
    decreases s.len(),
{
    if s.len() == 0 {
        0
    } else {
        digits_val(s.drop_last()) * 10 + digit_val(s.last())
    }
}

/// The number a text denotes: an optional minus sign followed by digits.
/// Anything else (an empty text, a stray `.` or `-`) denotes nothing.
pub open spec fn spec_parse_int(s: Seq<char>) -> Option<int> {
    if s.len() >= 2 && s[0] == '-' && all_digits(s.skip(1)) {
        Option::Some(-digits_val(s.skip(1)))
    } else if s.len() >= 1 && all_digits(s) {
        Option::Some(digits_val(s))
    } else {
        Option::None
    }
}

/// A digit string's value only grows as digits are appended.
proof fn lemma_digits_val_prefix(s: Seq<char>, k: int)
    requires
        0 <= k <= s.len(),
        all_digits(s),
    ensures
        0 <= digits_val(s.subrange(0, k)) <= digits_val(s),
        digits_val(s.subrange(0, s.len() as int)) == digits_val(s),
    decreases s.len() - k,
{
    if k == s.len() {
        assert(s.subrange(0, k) =~= s);
        lemma_digits_val_nonneg(s);
    } else {
        lemma_digits_val_prefix(s, k + 1);
        let p1 = s.subrange(0, k + 1);
        assert(p1.drop_last() =~= s.subrange(0, k));
        assert(digits_val(p1) == digits_val(s.subrange(0, k)) * 10 + digit_val(s[k]));
        lemma_digits_val_nonneg(s.subrange(0, k));
        assert(digits_val(s.subrange(0, k)) <= digits_val(p1));
    }
}

/// A digit string's value is non-negative.
proof fn lemma_digits_val_nonneg(s: Seq<char>)
    requires
        all_digits(s),
    ensures
        digits_val(s) >= 0,
    decreases s.len(),
{
    if s.len() > 0 {
        assert(all_digits(s.drop_last()));
        lemma_digits_val_nonneg(s.drop_last());
    }
}

/// Whether `c` is a decimal digit.
pub fn digit(c: char) -> (r: bool)
    ensures
        r == is_digit(c),
{
    c >= '0' && c <= '9'
}

/// Parses the characters `v[from..to]` as a number literal.  An invalid text
/// is a type error; a number outside the machine range is an arithmetic
/// error.
pub fn parse_int_chars(v: &Vec<char>, from: usize, to: usize) -> (r: Result<i64, Error>)
    requires
        from <= to <= v@.len(),
    ensures
        match spec_parse_int(v@.subrange(from as int, to as int)) {
            Option::Some(n) => if in_i64(n) {
                r == Result::<i64, Error>::Ok(n as i64)
            } else {
                r == Result::<i64, Error>::Err(Error::ArithmeticError)
            },
            Option::None => r == Result::<i64, Error>::Err(Error::TypeError),
        },
{
    let ghost s = v@.subrange(from as int, to as int);
    if from == to {
        return Result::Err(Error::TypeError);
    }
    let neg = v[from] == '-';
    let dstart = if neg { from + 1 } else { from };
    if dstart == to {
        // "-" alone, or impossible; a lone digit never lands here.
        proof {
            assert(s.len() == 1);
            assert(s[0] == '-');
            assert(!is_digit(s[0]));
            assert(spec_parse_int(s) is None);
        }
        return Result::Err(Error::TypeError);
    }
    let ghost digits = v@.subrange(dstart as int, to as int);
    proof {
        if neg {
            assert(digits =~= s.skip(1));
        } else {
            assert(digits =~= s);
        }
    }
    let mut i = dstart;
    while i < to
        invariant
            from <= dstart <= i <= to <= v@.len(),
            s == v@.subrange(from as int, to as int),
            s.len() >= 1,
            neg == (v@[from as int] == '-'),
            dstart == if neg {
                from + 1
            } else {
                from as int
            },
            neg ==> s.len() >= 2 && s[0] == '-' && digits == s.skip(1),
            !neg ==> digits == s,
            digits == v@.subrange(dstart as int, to as int),
            all_digits(v@.subrange(dstart as int, i as int)),
        decreases to - i,
    {
        let c = v[i];
        proof {
            assert(s[0] == v@[from as int]);
            assert(digits[i - dstart] == c);
        }
        if !digit(c) {
            proof {
                assert(!all_digits(digits));
                if neg {
                    assert(s[0] == '-');
                    assert(!is_digit(s[0]));
                    assert(!all_digits(s));
                } else {
                    assert(s[0] != '-');
                    assert(!all_digits(s));
                }
                assert(spec_parse_int(s) is None);
            }
            return Result::Err(Error::TypeError);
        }
        proof {
            let pre1 = v@.subrange(dstart as int, i + 1);
            assert(pre1.drop_last() =~= v@.subrange(dstart as int, i as int));
            assert(pre1.last() == c);
            assert(all_digits(pre1));
        }
        i = i + 1;
    }
    proof {
        assert(v@.subrange(dstart as int, i as int) =~= digits);
        assert(all_digits(digits));
        if neg {
            assert(spec_parse_int(s) == Option::Some(-digits_val(digits)));
        } else {
            assert(spec_parse_int(s) == Option::Some(digits_val(digits)));
        }
    }
    let mut acc: u64 = 0;
    let mut k = dstart;
    while k < to
        invariant
            dstart <= k <= to <= v@.len(),
            from <= to,
            s == v@.subrange(from as int, to as int),
            digits == v@.subrange(dstart as int, to as int),
            all_digits(digits),
            spec_parse_int(s) == Option::Some(
                if neg {
                    -digits_val(digits)
                } else {
                    digits_val(digits)
                },
            ),
            acc as int == digits_val(v@.subrange(dstart as int, k as int)),
        decreases to - k,
    {
        let c = v[k];
        proof {
            assert(digits[k - dstart] == c);
            assert(is_digit(c));
            let pre = v@.subrange(dstart as int, k as int);
            let pre1 = v@.subrange(dstart as int, k + 1);
            assert(pre1.drop_last() =~= pre);
            assert(pre1.last() == c);
            assert(digits_val(pre1) == digits_val(pre) * 10 + digit_val(c));
        }
        let d: u64 = (c as u32 as u64) - 48;
        let acc10 = match acc.checked_mul(10) {
            Option::Some(m) => match m.checked_add(d) {
                Option::Some(sum) => Option::Some(sum),
                Option::None => Option::None,
            },
            Option::None => Option::None,
        };
        match acc10 {
            Option::Some(sum) => {
                acc = sum;
            },
            Option::None => {
                proof {
                    lemma_overflowing_digits(
                        v@,
                        dstart as int,
                        k as int,
                        to as int,
                        acc as int,
                        digit_val(c),
                    );
                    assert(digits_val(digits) > u64::MAX);
                }
                return Result::Err(Error::ArithmeticError);
            },
        }
        k = k + 1;
    }
    proof {
        assert(v@.subrange(dstart as int, k as int) =~= digits);
    }
    if neg {
        if acc > 9223372036854775808u64 {
            return Result::Err(Error::ArithmeticError);
        }
        if acc == 9223372036854775808u64 {
            return Result::Ok(i64::MIN);
        }
        return Result::Ok(-(acc as i64));
    }
    if acc > i64::MAX as u64 {
        return Result::Err(Error::ArithmeticError);
    }
    Result::Ok(acc as i64)
}

/// When the running value of a digit prefix would leave the machine range,
/// the whole digit string's value does too.
proof fn lemma_overflowing_digits(v: Seq<char>, dstart: int, i: int, to: int, acc: int, d: int)
    requires
        0 <= dstart <= i < to <= v.len(),
        all_digits(v.subrange(dstart, i)),
        is_digit(v[i]),
        acc == digits_val(v.subrange(dstart, i)),
        acc >= 0,
        d == digit_val(v[i]),
        acc * 10 + d > u64::MAX,
    ensures
        all_digits(v.subrange(dstart, to)) ==> digits_val(v.subrange(dstart, to)) > u64::MAX,
{
    if all_digits(v.subrange(dstart, to)) {
        let digits = v.subrange(dstart, to);
        let k = i + 1 - dstart;
        assert(digits.subrange(0, k).drop_last() =~= v.subrange(dstart, i));
        assert(digits.subrange(0, k).last() == v[i]);
        assert(digits_val(digits.subrange(0, k)) == acc * 10 + d);
        lemma_digits_val_prefix(digits, k);
    }
}

/// The text `print` writes for an argument list: each argument rendered,
/// joined with single spaces.
pub open spec fn joined(args: Seq<TypeM>) -> Seq<char>
    decreases args.len(),
{
    if args.len() == 0 {
        Seq::empty()
    } else if args.len() == 1 {
        render(args[0])
    } else {
        joined(args.drop_last()) + seq![' '] + render(args.last())
    }
}

/// Renders and joins an argument list with single spaces.
fn join_rendered(args: &Vec<Type>) -> (r: String)
    ensures
        r@ == joined(nodes_view(args@)),
{
    let mut acc = String::new();
    let n = args.len();
    proof {
        assert(nodes_view(args@).subrange(0, 0) =~= Seq::<TypeM>::empty());
    }
    for i in 0..n
        invariant
            n == args.len(),
            acc@ == joined(nodes_view(args@).subrange(0, i as int)),
    {
        if i > 0 {
            acc.append(" ");
        }
        let t = args[i].toString();
        acc.append(t.as_str());
        proof {
            reveal_strlit(" ");
            let av = nodes_view(args@);
            assert(av.subrange(0, i + 1).drop_last() =~= av.subrange(0, i as int));
            assert(av.subrange(0, i + 1).last() == node_view(args@[i as int]));
            if i == 0 {
                assert(acc@ =~= joined(av.subrange(0, 1)));
            } else {
                assert(" "@ =~= seq![' ']);
                assert(acc@ =~= joined(av.subrange(0, i + 1)));
            }
        }
    }
    proof {
        assert(nodes_view(args@).subrange(0, n as int) =~= nodes_view(args@));
    }
    acc
}

/// What a native does: the line it appends to the output channel, if any,
/// and its result.  Arguments beyond the ones an operator reads are ignored,
/// and too few arguments for an operator is an arity error.
pub open spec fn spec_native(kind: NativeKind, args: Seq<TypeM>) -> (Option<Seq<char>>, Result<
    Option<TypeM>,
    Error,
>) {
    match kind {
        NativeKind::Print => (Option::Some(joined(args)), Result::Ok(Option::None)),
        NativeKind::ToNumber => if args.len() < 1 {
            (Option::None, Result::Err(Error::ArityError))
        } else {
            (
                Option::None,
                match spec_parse_int(render(args[0])) {
                    Option::Some(n) => if in_i64(n) {
                        Result::Ok(Option::Some(TypeM::Number(n)))
                    } else {
                        Result::Err(Error::ArithmeticError)
                    },
                    Option::None => Result::Err(Error::TypeError),
                },
            )
        },
        NativeKind::Not => if args.len() < 1 {
            (Option::None, Result::Err(Error::ArityError))
        } else {
            (Option::None, lift_val(spec_not(args[0])))
        },
        _ => if args.len() < 2 {
            (Option::None, Result::Err(Error::ArityError))
        } else {
            (
                Option::None,
                lift_val(
                    match kind {
                        NativeKind::Add => spec_add(args[0], args[1]),
                        NativeKind::Subtract => spec_subtract(args[0], args[1]),
                        NativeKind::Multiply => spec_multiply(args[0], args[1]),
                        NativeKind::Divide => spec_divide(args[0], args[1]),
                        NativeKind::Power => spec_power(args[0], args[1]),
                        NativeKind::Modulo => spec_modulo(args[0], args[1]),
                        NativeKind::Equals => spec_equals(args[0], args[1]),
                        NativeKind::NotEquals => spec_not_equals(args[0], args[1]),
                        NativeKind::And => spec_and(args[0], args[1]),
                        NativeKind::Or => spec_or(args[0], args[1]),
                        _ => spec_compare(args[0], args[1], kind),
                    },
                ),
            )
        },
    }
}

/// Lifts an operator result to an evaluation result.
pub open spec fn lift_val(r: Result<TypeM, Error>) -> Result<Option<TypeM>, Error> {
    match r {
        Result::Ok(v) => Result::Ok(Option::Some(v)),
        Result::Err(e) => Result::Err(e),
    }
}

/// Model of a native's run: the appended output line and the result.
pub open spec fn native_run_view(r: (Option<String>, Result<Option<Type>, Error>)) -> (
    Option<Seq<char>>,
    Result<Option<TypeM>, Error>,
) {
    (
        match r.0 {
            Option::Some(s) => Option::Some(s@),
            Option::None => Option::None,
        },
        match r.1 {
            Result::Ok(Option::Some(v)) => Result::Ok(Option::Some(node_view(v))),
            Result::Ok(Option::None) => Result::Ok(Option::None),
            Result::Err(e) => Result::Err(e),
        },
    )
}

/// Runs one native on evaluated arguments; returns the output line it wants
/// appended, if any, and its result.
pub fn run_native(kind: NativeKind, args: &Vec<Type>) -> (r: (Option<String>, Result<
    Option<Type>,
    Error,
>))
    ensures
        native_run_view(r) == spec_native(kind, nodes_view(args@)),
{
    let ghost av = nodes_view(args@);
    match kind {
        NativeKind::Print => (Option::Some(join_rendered(args)), Result::Ok(Option::None)),
        NativeKind::ToNumber => {
            if args.len() < 1 {
                return (Option::None, Result::Err(Error::ArityError));
            }
            let text = args[0].toString();
            let chars = crate::render::chars_of(text.as_str());
            proof {
                assert(chars@.subrange(0, chars@.len() as int) =~= render(av[0]));
            }
            match parse_int_chars(&chars, 0, chars.len()) {
                Result::Ok(n) => (Option::None, Result::Ok(Option::Some(Type::Number(n)))),
                Result::Err(e) => (Option::None, Result::Err(e)),
            }
        },
        NativeKind::Not => {
            if args.len() < 1 {
                return (Option::None, Result::Err(Error::ArityError));
            }
            match Type::Not(&args[0]) {
                Result::Ok(v) => (Option::None, Result::Ok(Option::Some(v))),
                Result::Err(e) => (Option::None, Result::Err(e)),
            }
        },
        _ => {
            if args.len() < 2 {
                return (Option::None, Result::Err(Error::ArityError));
            }
            let res = match kind {
                NativeKind::Add => Type::Add(&args[0], &args[1]),
                NativeKind::Subtract => Type::Subtract(&args[0], &args[1]),
                NativeKind::Multiply => Type::Multiply(&args[0], &args[1]),
                NativeKind::Divide => Type::Divide(&args[0], &args[1]),
                NativeKind::Power => Type::Power(&args[0], &args[1]),
                NativeKind::Modulo => Type::Modulo(&args[0], &args[1]),
                NativeKind::Equals => Type::Equals(&args[0], &args[1]),
                NativeKind::NotEquals => Type::NotEquals(&args[0], &args[1]),
                NativeKind::And => Type::And(&args[0], &args[1]),
                NativeKind::Or => Type::Or(&args[0], &args[1]),
                NativeKind::LessThanOrEquals => Type::LessThanOrEquals(&args[0], &args[1]),
                NativeKind::GreaterThanOrEquals => Type::GreaterThanOrEquals(&args[0], &args[1]),
                NativeKind::LessThan => Type::LessThan(&args[0], &args[1]),
                _ => Type::GreaterThan(&args[0], &args[1]),
            };
            match res {
                Result::Ok(v) => (Option::None, Result::Ok(Option::Some(v))),
                Result::Err(e) => (Option::None, Result::Err(e)),
            }
        },
    }
}

proof fn lemma_pow_zero_base(b: nat)
    requires
        b > 0,
    ensures
        pow_int(0, b) == 0,
    decreases b,
{
    if b > 1 {
        lemma_pow_zero_base((b - 1) as nat);
    }
}

proof fn lemma_pow_one_base(b: nat)
    ensures
        pow_int(1, b) == 1,
    decreases b,
{
    if b > 0 {
        lemma_pow_one_base((b - 1) as nat);
    }
}

proof fn lemma_pow_neg_one_base(b: nat)
    ensures
        pow_int(-1, b) == if b % 2 == 0 { 1int } else { -1int },
    decreases b,
{
    if b > 0 {
        lemma_pow_neg_one_base((b - 1) as nat);
    }
}

} // verus!
