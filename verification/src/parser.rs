//! The grammar: a deterministic, whitespace-tolerant recursive-descent parse
//! of source text into an AST statement list.
//!
//! The grammar is written down once as a family of spec functions (`sp_*`)
//! over the character sequence; the executable parser is proved to return
//! exactly what they say.  Alternatives are tried in a fixed order and the
//! first match wins; a statement that matches no rule fails the whole parse.
//! Every rule that recurses through another rule's result carries a fuel
//! budget, generous enough for any input that fits in memory.

use vstd::prelude::*;

use crate::ast::{node_view, nodes_view, strings_view, Type, TypeM};
use crate::natives::{in_i64, is_digit, spec_parse_int};
use crate::Error;

verus! {

broadcast use vstd::std_specs::vec::group_vec_axioms;

/// Whitespace: blank, tab, newline, carriage return.
pub open spec fn is_ws(c: char) -> bool {
    c == ' ' || c == '\t' || c == '\n' || c == '\r'
}

/// Whitespace that does not end a statement: blank or tab.
pub open spec fn is_inline_ws(c: char) -> bool {
    c == ' ' || c == '\t'
}

/// A character that may start or continue a symbol: the ASCII range from
/// `A` through `z` (which also admits `_` and a few punctuation letters,
/// as the reserved operator symbols like `__add__` need).
pub open spec fn is_sym_char(c: char) -> bool {
    65 <= c as int <= 122
}

/// A character the number literal scanner consumes.
pub open spec fn is_num_char(c: char) -> bool {
    is_digit(c) || c == '.' || c == '-'
}

/// The first position at or after `pos` holding no whitespace.
pub open spec fn sp_skip_ws(s: Seq<char>, pos: int) -> int
    decreases s.len() - pos,
{
    if 0 <= pos < s.len() && is_ws(s[pos]) {
        sp_skip_ws(s, pos + 1)
    } else {
        pos
    }
}

/// The first position at or after `pos` holding no inline whitespace.
pub open spec fn sp_skip_inline_ws(s: Seq<char>, pos: int) -> int
    decreases s.len() - pos,
{
    if 0 <= pos < s.len() && is_inline_ws(s[pos]) {
        sp_skip_inline_ws(s, pos + 1)
    } else {
        pos
    }
}

/// The end of the run of number-literal characters starting at `pos`.
pub open spec fn sp_scan_num(s: Seq<char>, pos: int) -> int
    decreases s.len() - pos,
{
    if 0 <= pos < s.len() && is_num_char(s[pos]) {
        sp_scan_num(s, pos + 1)
    } else {
        pos
    }
}

/// The end of the run of symbol characters starting at `pos`.
pub open spec fn sp_scan_sym(s: Seq<char>, pos: int) -> int
    decreases s.len() - pos,
{
    if 0 <= pos < s.len() && is_sym_char(s[pos]) {
        sp_scan_sym(s, pos + 1)
    } else {
        pos
    }
}

/// The end of the run of digits starting at `pos`.
pub open spec fn sp_scan_digits(s: Seq<char>, pos: int) -> int
    decreases s.len() - pos,
{
    if 0 <= pos < s.len() && is_digit(s[pos]) {
        sp_scan_digits(s, pos + 1)
    } else {
        pos
    }
}

/// The position of the next `stop` character at or after `pos`, or the end
/// of the input.
pub open spec fn sp_scan_to(s: Seq<char>, pos: int, stop: char) -> int
    decreases s.len() - pos,
{
    if 0 <= pos < s.len() && s[pos] != stop {
        sp_scan_to(s, pos + 1, stop)
    } else {
        pos
    }
}

/// Whether the text `w` stands at position `pos`.
pub open spec fn sp_match(s: Seq<char>, pos: int, w: Seq<char>) -> bool {
    0 <= pos && pos + w.len() <= s.len() && s.subrange(pos, pos + w.len()) == w
}

/// A number literal: a maximal run of digits, `.` and `-` that denotes a
/// representable number.  A run that denotes none (a stray `-`, a fraction)
/// matches nothing, and the statement containing it fails.
pub open spec fn sp_number(s: Seq<char>, pos: int) -> Option<(TypeM, int)> {
    let end = sp_scan_num(s, pos);
    if end == pos {
        Option::None
    } else {
        match spec_parse_int(s.subrange(pos, end)) {
            Option::Some(n) => if in_i64(n) {
                Option::Some((TypeM::Number(n), end))
            } else {
                Option::None
            },
            Option::None => Option::None,
        }
    }
}

/// A symbol: one or more symbol characters, then any run of digits.
pub open spec fn sp_symbol(s: Seq<char>, pos: int) -> Option<(Seq<char>, int)> {
    let end1 = sp_scan_sym(s, pos);
    if end1 == pos {
        Option::None
    } else {
        let end = sp_scan_digits(s, end1);
        Option::Some((s.subrange(pos, end), end))
    }
}

/// A string literal: a double quote, any characters but a quote, a closing
/// quote.  No escape processing.
pub open spec fn sp_string_lit(s: Seq<char>, pos: int) -> Option<(TypeM, int)> {
    if 0 <= pos < s.len() && s[pos] == '"' {
        let end = sp_scan_to(s, pos + 1, '"');
        if end < s.len() {
            Option::Some((TypeM::Str(s.subrange(pos + 1, end)), end + 1))
        } else {
            Option::None
        }
    } else {
        Option::None
    }
}

/// A comment: `//` up to the end of the line; the newline is consumed.
pub open spec fn sp_comment(s: Seq<char>, pos: int) -> Option<(TypeM, int)> {
    if sp_match(s, pos, "//"@) {
        let end = sp_scan_to(s, pos + 2, '\n');
        let node = TypeM::Comment(s.subrange(pos + 2, end));
        if end < s.len() {
            Option::Some((node, end + 1))
        } else {
            Option::Some((node, end))
        }
    } else {
        Option::None
    }
}

/// A binary operator call on the reserved symbol `name`.
pub open spec fn sp_binop(name: Seq<char>, x: TypeM, y: TypeM) -> TypeM {
    TypeM::Call { callee: name, arguments: seq![x, y] }
}

/// The argument expressions of a call: full statements separated by commas,
/// closed by a parenthesis.
pub open spec fn sp_call_args(s: Seq<char>, pos: int, acc: Seq<TypeM>, fuel: nat) -> Option<
    (Seq<TypeM>, int),
>
    decreases fuel,
{
    if fuel == 0 {
        Option::None
    } else {
        let p = sp_skip_ws(s, pos);
        if sp_match(s, p, ")"@) {
            Option::Some((acc, p + 1))
        } else {
            match sp_stmt(s, p, (fuel - 1) as nat) {
                Option::None => Option::None,
                Option::Some((n, q)) => {
                    let q2 = sp_skip_ws(s, q);
                    if sp_match(s, q2, ","@) {
                        sp_call_args(s, q2 + 1, acc.push(n), (fuel - 1) as nat)
                    } else if sp_match(s, q2, ")"@) {
                        Option::Some((acc.push(n), q2 + 1))
                    } else {
                        Option::None
                    }
                },
            }
        }
    }
}

/// A call: a symbol, an opening parenthesis, arguments, a closing one.
/// The control keywords are not callable, so `while (..)` and `if (..)`
/// reach their own rules.
pub open spec fn sp_call(s: Seq<char>, pos: int, fuel: nat) -> Option<(TypeM, int)>
    decreases fuel,
{
    if fuel == 0 {
        Option::None
    } else {
        match sp_symbol(s, pos) {
            Option::None => Option::None,
            Option::Some((name, p1)) => if name == "if"@ || name == "while"@ {
                Option::None
            } else {
                let p2 = sp_skip_ws(s, p1);
                if sp_match(s, p2, "("@) {
                    match sp_call_args(s, p2 + 1, Seq::empty(), (fuel - 1) as nat) {
                        Option::Some((args, q)) => Option::Some(
                            (TypeM::Call { callee: name, arguments: args }, q),
                        ),
                        Option::None => Option::None,
                    }
                } else {
                    Option::None
                }
            },
        }
    }
}

/// Whether a name equals a fixed text.
fn str_eq_lit(a: &String, b: &str) -> (r: bool)
    ensures
        r == (a@ == b@),
{
    a.eq(&String::from_str(b))
}

/// The space-separated arguments of a chain call.  The first may follow the
/// name directly; each further one needs at least one blank or tab before
/// it.  A newline ends the chain.
pub open spec fn sp_chain_args(
    s: Seq<char>,
    pos: int,
    acc: Seq<TypeM>,
    first: bool,
    fuel: nat,
) -> (Seq<TypeM>, int)
    decreases fuel,
{
    if fuel == 0 {
        (acc, pos)
    } else {
        let p = sp_skip_inline_ws(s, pos);
        if !first && p == pos {
            (acc, pos)
        } else {
            match sp_operation(s, p, (fuel - 1) as nat) {
                Option::Some((e, q)) => sp_chain_args(s, q, acc.push(e), false, (fuel - 1) as nat),
                Option::None => (acc, pos),
            }
        }
    }
}

/// A chain call: `$ name arg arg ...`, equivalent to calling `name` on the
/// same arguments in the same order.
pub open spec fn sp_chain_call(s: Seq<char>, pos: int, fuel: nat) -> Option<(TypeM, int)>
    decreases fuel,
{
    if fuel == 0 {
        Option::None
    } else if sp_match(s, pos, "$"@) {
        let p = sp_skip_ws(s, pos + 1);
        match sp_symbol(s, p) {
            Option::None => Option::None,
            Option::Some((name, p1)) => {
                let (args, q) = sp_chain_args(s, p1, Seq::empty(), true, (fuel - 1) as nat);
                Option::Some((TypeM::Call { callee: name, arguments: args }, q))
            },
        }
    } else {
        Option::None
    }
}

/// An atom: a chain call, a call, a `while` or `if` form, a literal, a
/// symbol, or a parenthesized atom — first match wins.
pub open spec fn sp_atom(s: Seq<char>, pos: int, fuel: nat) -> Option<(TypeM, int)>
    decreases fuel,
{
    if fuel == 0 {
        Option::None
    } else {
        let f = (fuel - 1) as nat;
        match sp_chain_call(s, pos, f) {
            Option::Some(r) => Option::Some(r),
            Option::None => match sp_call(s, pos, f) {
                Option::Some(r) => Option::Some(r),
                Option::None => match sp_while(s, pos, f) {
                    Option::Some(r) => Option::Some(r),
                    Option::None => match sp_if(s, pos, f) {
                        Option::Some(r) => Option::Some(r),
                        Option::None => match sp_number(s, pos) {
                            Option::Some(r) => Option::Some(r),
                            Option::None => match sp_symbol(s, pos) {
                                Option::Some((name, q)) => Option::Some(
                                    (TypeM::Symbol(name), q),
                                ),
                                Option::None => match sp_string_lit(s, pos) {
                                    Option::Some(r) => Option::Some(r),
                                    Option::None => if sp_match(s, pos, "("@) {
                                        let p = sp_skip_ws(s, pos + 1);
                                        match sp_atom(s, p, f) {
                                            Option::Some((n, q)) => {
                                                let q2 = sp_skip_ws(s, q);
                                                if sp_match(s, q2, ")"@) {
                                                    Option::Some((n, q2 + 1))
                                                } else {
                                                    Option::None
                                                }
                                            },
                                            Option::None => Option::None,
                                        }
                                    } else {
                                        Option::None
                                    },
                                },
                            },
                        },
                    },
                },
            },
        }
    }
}

/// An atom, or a parenthesized additive expression.
pub open spec fn sp_arith_base(s: Seq<char>, pos: int, fuel: nat) -> Option<(TypeM, int)>
    decreases fuel,
{
    if fuel == 0 {
        Option::None
    } else {
        let f = (fuel - 1) as nat;
        match sp_atom(s, pos, f) {
            Option::Some(r) => Option::Some(r),
            Option::None => if sp_match(s, pos, "("@) {
                let p = sp_skip_ws(s, pos + 1);
                match sp_add(s, p, f) {
                    Option::Some((n, q)) => {
                        let q2 = sp_skip_ws(s, q);
                        if sp_match(s, q2, ")"@) {
                            Option::Some((n, q2 + 1))
                        } else {
                            Option::None
                        }
                    },
                    Option::None => Option::None,
                }
            } else {
                Option::None
            },
        }
    }
}

/// The exponent/remainder level: `**` and `%`, binding tightest,
/// left-associative.
pub open spec fn sp_powmod_rest(s: Seq<char>, acc: TypeM, pos: int, fuel: nat) -> (TypeM, int)
    decreases fuel,
{
    if fuel == 0 {
        (acc, pos)
    } else {
        let f = (fuel - 1) as nat;
        let p = sp_skip_ws(s, pos);
        let op: Seq<char> = if sp_match(s, p, "**"@) {
            "__pow__"@
        } else if sp_match(s, p, "%"@) {
            "__mod__"@
        } else {
            Seq::empty()
        };
        let w: int = if sp_match(s, p, "**"@) {
            2
        } else {
            1
        };
        if op.len() == 0 {
            (acc, pos)
        } else {
            let p2 = sp_skip_ws(s, p + w);
            match sp_arith_base(s, p2, f) {
                Option::Some((rhs, q)) => sp_powmod_rest(s, sp_binop(op, acc, rhs), q, f),
                Option::None => (acc, pos),
            }
        }
    }
}

pub open spec fn sp_powmod(s: Seq<char>, pos: int, fuel: nat) -> Option<(TypeM, int)>
    decreases fuel,
{
    if fuel == 0 {
        Option::None
    } else {
        let f = (fuel - 1) as nat;
        match sp_arith_base(s, pos, f) {
            Option::Some((lhs, q)) => Option::Some(sp_powmod_rest(s, lhs, q, f)),
            Option::None => Option::None,
        }
    }
}

/// The multiplicative level: `*` and `/`, left-associative.
pub open spec fn sp_mul_rest(s: Seq<char>, acc: TypeM, pos: int, fuel: nat) -> (TypeM, int)
    decreases fuel,
{
    if fuel == 0 {
        (acc, pos)
    } else {
        let f = (fuel - 1) as nat;
        let p = sp_skip_ws(s, pos);
        let op: Seq<char> = if sp_match(s, p, "*"@) && !sp_match(s, p, "**"@) {
            "__mul__"@
        } else if sp_match(s, p, "/"@) && !sp_match(s, p, "//"@) {
            "__div__"@
        } else {
            Seq::empty()
        };
        if op.len() == 0 {
            (acc, pos)
        } else {
            let p2 = sp_skip_ws(s, p + 1);
            match sp_powmod(s, p2, f) {
                Option::Some((rhs, q)) => sp_mul_rest(s, sp_binop(op, acc, rhs), q, f),
                Option::None => (acc, pos),
            }
        }
    }
}

pub open spec fn sp_mul(s: Seq<char>, pos: int, fuel: nat) -> Option<(TypeM, int)>
    decreases fuel,
{
    if fuel == 0 {
        Option::None
    } else {
        let f = (fuel - 1) as nat;
        match sp_powmod(s, pos, f) {
            Option::Some((lhs, q)) => Option::Some(sp_mul_rest(s, lhs, q, f)),
            Option::None => Option::None,
        }
    }
}

/// The additive level: `+` and `-`, binding loosest of the arithmetic
/// operators, left-associative.
pub open spec fn sp_add_rest(s: Seq<char>, acc: TypeM, pos: int, fuel: nat) -> (TypeM, int)
    decreases fuel,
{
    if fuel == 0 {
        (acc, pos)
    } else {
        let f = (fuel - 1) as nat;
        let p = sp_skip_ws(s, pos);
        let op: Seq<char> = if sp_match(s, p, "+"@) && !sp_match(s, p, "++"@) && !sp_match(
            s,
            p,
            "+="@,
        ) {
            "__add__"@
        } else if sp_match(s, p, "-"@) && !sp_match(s, p, "--"@) && !sp_match(s, p, "-="@) {
            "__sub__"@
        } else {
            Seq::empty()
        };
        if op.len() == 0 {
            (acc, pos)
        } else {
            let p2 = sp_skip_ws(s, p + 1);
            match sp_mul(s, p2, f) {
                Option::Some((rhs, q)) => sp_add_rest(s, sp_binop(op, acc, rhs), q, f),
                Option::None => (acc, pos),
            }
        }
    }
}

pub open spec fn sp_add(s: Seq<char>, pos: int, fuel: nat) -> Option<(TypeM, int)>
    decreases fuel,
{
    if fuel == 0 {
        Option::None
    } else {
        let f = (fuel - 1) as nat;
        match sp_mul(s, pos, f) {
            Option::Some((lhs, q)) => Option::Some(sp_add_rest(s, lhs, q, f)),
            Option::None => Option::None,
        }
    }
}

/// An additive expression, or a parenthesized full operation.
pub open spec fn sp_op_base(s: Seq<char>, pos: int, fuel: nat) -> Option<(TypeM, int)>
    decreases fuel,
{
    if fuel == 0 {
        Option::None
    } else {
        let f = (fuel - 1) as nat;
        match sp_add(s, pos, f) {
            Option::Some(r) => Option::Some(r),
            Option::None => if sp_match(s, pos, "("@) {
                let p = sp_skip_ws(s, pos + 1);
                match sp_operation(s, p, f) {
                    Option::Some((n, q)) => {
                        let q2 = sp_skip_ws(s, q);
                        if sp_match(s, q2, ")"@) {
                            Option::Some((n, q2 + 1))
                        } else {
                            Option::None
                        }
                    },
                    Option::None => Option::None,
                }
            } else {
                Option::None
            },
        }
    }
}

/// The unary level: `!`, applying to itself or anything tighter.
pub open spec fn sp_unary(s: Seq<char>, pos: int, fuel: nat) -> Option<(TypeM, int)>
    decreases fuel,
{
    if fuel == 0 {
        Option::None
    } else {
        let f = (fuel - 1) as nat;
        if sp_match(s, pos, "!"@) && !sp_match(s, pos, "!="@) {
            let p = sp_skip_ws(s, pos + 1);
            match sp_unary(s, p, f) {
                Option::Some((x, q)) => Option::Some(
                    (TypeM::Call { callee: "__not__"@, arguments: seq![x] }, q),
                ),
                Option::None => Option::None,
            }
        } else {
            sp_op_base(s, pos, f)
        }
    }
}

/// The relational level: `<=`, `>=`, `<`, `>`, left-associative.
pub open spec fn sp_rel_rest(s: Seq<char>, acc: TypeM, pos: int, fuel: nat) -> (TypeM, int)
    decreases fuel,
{
    if fuel == 0 {
        (acc, pos)
    } else {
        let f = (fuel - 1) as nat;
        let p = sp_skip_ws(s, pos);
        let op: Seq<char> = if sp_match(s, p, "<="@) {
            "__le__"@
        } else if sp_match(s, p, ">="@) {
            "__ge__"@
        } else if sp_match(s, p, "<"@) && !sp_match(s, p, "<|"@) {
            "__lt__"@
        } else if sp_match(s, p, ">"@) {
            "__gt__"@
        } else {
            Seq::empty()
        };
        let w: int = if sp_match(s, p, "<="@) || sp_match(s, p, ">="@) {
            2
        } else {
            1
        };
        if op.len() == 0 {
            (acc, pos)
        } else {
            let p2 = sp_skip_ws(s, p + w);
            match sp_unary(s, p2, f) {
                Option::Some((rhs, q)) => sp_rel_rest(s, sp_binop(op, acc, rhs), q, f),
                Option::None => (acc, pos),
            }
        }
    }
}

pub open spec fn sp_relational(s: Seq<char>, pos: int, fuel: nat) -> Option<(TypeM, int)>
    decreases fuel,
{
    if fuel == 0 {
        Option::None
    } else {
        let f = (fuel - 1) as nat;
        match sp_unary(s, pos, f) {
            Option::Some((lhs, q)) => Option::Some(sp_rel_rest(s, lhs, q, f)),
            Option::None => Option::None,
        }
    }
}

/// The equality level: `==` and `!=`, left-associative.
pub open spec fn sp_eq_rest(s: Seq<char>, acc: TypeM, pos: int, fuel: nat) -> (TypeM, int)
    decreases fuel,
{
    if fuel == 0 {
        (acc, pos)
    } else {
        let f = (fuel - 1) as nat;
        let p = sp_skip_ws(s, pos);
        let op: Seq<char> = if sp_match(s, p, "=="@) {
            "__eq__"@
        } else if sp_match(s, p, "!="@) {
            "__ne__"@
        } else {
            Seq::empty()
        };
        if op.len() == 0 {
            (acc, pos)
        } else {
            let p2 = sp_skip_ws(s, p + 2);
            match sp_relational(s, p2, f) {
                Option::Some((rhs, q)) => sp_eq_rest(s, sp_binop(op, acc, rhs), q, f),
                Option::None => (acc, pos),
            }
        }
    }
}

pub open spec fn sp_equality(s: Seq<char>, pos: int, fuel: nat) -> Option<(TypeM, int)>
    decreases fuel,
{
    if fuel == 0 {
        Option::None
    } else {
        let f = (fuel - 1) as nat;
        match sp_relational(s, pos, f) {
            Option::Some((lhs, q)) => Option::Some(sp_eq_rest(s, lhs, q, f)),
            Option::None => Option::None,
        }
    }
}

/// The logical level: `&&` and `||`, binding loosest of the binary
/// operators, left-associative.
pub open spec fn sp_logic_rest(s: Seq<char>, acc: TypeM, pos: int, fuel: nat) -> (TypeM, int)
    decreases fuel,
{
    if fuel == 0 {
        (acc, pos)
    } else {
        let f = (fuel - 1) as nat;
        let p = sp_skip_ws(s, pos);
        let op: Seq<char> = if sp_match(s, p, "&&"@) {
            "__and__"@
        } else if sp_match(s, p, "||"@) {
            "__or__"@
        } else {
            Seq::empty()
        };
        if op.len() == 0 {
            (acc, pos)
        } else {
            let p2 = sp_skip_ws(s, p + 2);
            match sp_equality(s, p2, f) {
                Option::Some((rhs, q)) => sp_logic_rest(s, sp_binop(op, acc, rhs), q, f),
                Option::None => (acc, pos),
            }
        }
    }
}

pub open spec fn sp_logical(s: Seq<char>, pos: int, fuel: nat) -> Option<(TypeM, int)>
    decreases fuel,
{
    if fuel == 0 {
        Option::None
    } else {
        let f = (fuel - 1) as nat;
        match sp_equality(s, pos, f) {
            Option::Some((lhs, q)) => Option::Some(sp_logic_rest(s, lhs, q, f)),
            Option::None => Option::None,
        }
    }
}

/// The compound-assignment forms `x ++`, `x --`, `x op= e`, each desugaring
/// to an assignment whose value is an ordinary operator call.
pub open spec fn sp_compound(s: Seq<char>, pos: int, fuel: nat) -> Option<(TypeM, int)>
    decreases fuel,
{
    if fuel == 0 {
        Option::None
    } else {
        let f = (fuel - 1) as nat;
        match sp_symbol(s, pos) {
            Option::None => Option::None,
            Option::Some((name, p1)) => {
                let p = sp_skip_ws(s, p1);
                if sp_match(s, p, "++"@) {
                    Option::Some(
                        (
                            TypeM::Assignment {
                                variable: name,
                                value: Box::new(
                                    sp_binop("__add__"@, TypeM::Symbol(name), TypeM::Number(1)),
                                ),
                            },
                            p + 2,
                        ),
                    )
                } else if sp_match(s, p, "--"@) {
                    Option::Some(
                        (
                            TypeM::Assignment {
                                variable: name,
                                value: Box::new(
                                    sp_binop("__sub__"@, TypeM::Symbol(name), TypeM::Number(1)),
                                ),
                            },
                            p + 2,
                        ),
                    )
                } else {
                    let op: Seq<char> = if sp_match(s, p, "**="@) {
                        "__pow__"@
                    } else if sp_match(s, p, "+="@) {
                        "__add__"@
                    } else if sp_match(s, p, "-="@) {
                        "__sub__"@
                    } else if sp_match(s, p, "*="@) {
                        "__mul__"@
                    } else if sp_match(s, p, "/="@) {
                        "__div__"@
                    } else if sp_match(s, p, "%="@) {
                        "__mod__"@
                    } else {
                        Seq::empty()
                    };
                    let w: int = if sp_match(s, p, "**="@) {
                        3
                    } else {
                        2
                    };
                    if op.len() == 0 {
                        Option::None
                    } else {
                        let p2 = sp_skip_ws(s, p + w);
                        match sp_logical(s, p2, f) {
                            Option::Some((rhs, q)) => Option::Some(
                                (
                                    TypeM::Assignment {
                                        variable: name,
                                        value: Box::new(
                                            sp_binop(op, TypeM::Symbol(name), rhs),
                                        ),
                                    },
                                    q,
                                ),
                            ),
                            Option::None => Option::None,
                        }
                    }
                }
            },
        }
    }
}

/// A full operator expression: compound assignment forms first, then the
/// operator precedence tower.
pub open spec fn sp_operation(s: Seq<char>, pos: int, fuel: nat) -> Option<(TypeM, int)>
    decreases fuel,
{
    if fuel == 0 {
        Option::None
    } else {
        let f = (fuel - 1) as nat;
        match sp_compound(s, pos, f) {
            Option::Some(r) => Option::Some(r),
            Option::None => sp_logical(s, pos, f),
        }
    }
}

/// The statements of a block or of the whole program: statements in order,
/// each followed by an optional `;`, until no statement matches.  Returns
/// the parsed statements and the position after the last one (with trailing
/// whitespace consumed).
pub open spec fn sp_stmts(s: Seq<char>, pos: int, acc: Seq<TypeM>, fuel: nat) -> (Seq<TypeM>, int)
    decreases fuel,
{
    if fuel == 0 {
        (acc, pos)
    } else {
        let f = (fuel - 1) as nat;
        let p = sp_skip_ws(s, pos);
        match sp_stmt(s, p, f) {
            Option::None => (acc, p),
            Option::Some((n, q)) => {
                let q2 = sp_skip_ws(s, q);
                let q3: int = if sp_match(s, q2, ";"@) {
                    q2 + 1
                } else {
                    q2
                };
                sp_stmts(s, q3, acc.push(n), f)
            },
        }
    }
}

/// A braced statement block.
pub open spec fn sp_block(s: Seq<char>, pos: int, fuel: nat) -> Option<(Seq<TypeM>, int)>
    decreases fuel,
{
    if fuel == 0 {
        Option::None
    } else if sp_match(s, pos, "{"@) {
        let (stmts, p) = sp_stmts(s, pos + 1, Seq::empty(), (fuel - 1) as nat);
        if sp_match(s, p, "}"@) {
            Option::Some((stmts, p + 1))
        } else {
            Option::None
        }
    } else {
        Option::None
    }
}

/// A declaration: `let name = expr`, with at least one blank after `let`.
pub open spec fn sp_declaration(s: Seq<char>, pos: int, fuel: nat) -> Option<(TypeM, int)>
    decreases fuel,
{
    if fuel == 0 {
        Option::None
    } else if sp_match(s, pos, "let"@) && pos + 3 < s.len() && is_ws(s[pos + 3]) {
        let p = sp_skip_ws(s, pos + 3);
        match sp_symbol(s, p) {
            Option::None => Option::None,
            Option::Some((name, p1)) => {
                let p2 = sp_skip_ws(s, p1);
                if sp_match(s, p2, "="@) {
                    let p3 = sp_skip_ws(s, p2 + 1);
                    match sp_stmt(s, p3, (fuel - 1) as nat) {
                        Option::Some((v, q)) => Option::Some(
                            (
                                TypeM::VariableDeclaration {
                                    variable: name,
                                    value: Box::new(v),
                                },
                                q,
                            ),
                        ),
                        Option::None => Option::None,
                    }
                } else {
                    Option::None
                }
            },
        }
    } else {
        Option::None
    }
}

/// An assignment: `name = expr`.
pub open spec fn sp_assignment(s: Seq<char>, pos: int, fuel: nat) -> Option<(TypeM, int)>
    decreases fuel,
{
    if fuel == 0 {
        Option::None
    } else {
        match sp_symbol(s, pos) {
            Option::None => Option::None,
            Option::Some((name, p1)) => {
                let p2 = sp_skip_ws(s, p1);
                if sp_match(s, p2, "="@) && !sp_match(s, p2, "=="@) {
                    let p3 = sp_skip_ws(s, p2 + 1);
                    match sp_stmt(s, p3, (fuel - 1) as nat) {
                        Option::Some((v, q)) => Option::Some(
                            (TypeM::Assignment { variable: name, value: Box::new(v) }, q),
                        ),
                        Option::None => Option::None,
                    }
                } else {
                    Option::None
                }
            },
        }
    }
}

/// One stage of a backward pipe: a chain call or a call.
pub open spec fn sp_pipe_elem(s: Seq<char>, pos: int, fuel: nat) -> Option<(TypeM, int)>
    decreases fuel,
{
    if fuel == 0 {
        Option::None
    } else {
        let f = (fuel - 1) as nat;
        match sp_chain_call(s, pos, f) {
            Option::Some(r) => Option::Some(r),
            Option::None => sp_call(s, pos, f),
        }
    }
}

/// Folds backward-pipe stages: the terminal value is appended as the last
/// argument of the call to its left, right to left.
pub open spec fn pipe_fold_left(elems: Seq<TypeM>, end: Option<TypeM>) -> Option<TypeM>
    decreases elems.len(),
{
    if elems.len() == 0 {
        end
    } else {
        let inner = pipe_fold_left(elems.drop_first(), end);
        match elems[0] {
            TypeM::Call { callee, arguments } => Option::Some(
                TypeM::Call {
                    callee,
                    arguments: match inner {
                        Option::Some(v) => arguments.push(v),
                        Option::None => arguments,
                    },
                },
            ),
            _ => inner,
        }
    }
}

/// The tail of a backward pipe: more `<|` stages, or one final `<|` operand.
pub open spec fn sp_pipe_left_rest(s: Seq<char>, pos: int, elems: Seq<TypeM>, fuel: nat) -> Option<
    (TypeM, int),
>
    decreases fuel,
{
    if fuel == 0 {
        Option::None
    } else {
        let f = (fuel - 1) as nat;
        let finish: Option<(TypeM, int)> = match pipe_fold_left(elems, Option::None) {
            Option::Some(n) => Option::Some((n, pos)),
            Option::None => Option::None,
        };
        let p = sp_skip_ws(s, pos);
        if sp_match(s, p, "<|"@) {
            let p2 = sp_skip_ws(s, p + 2);
            match sp_pipe_elem(s, p2, f) {
                Option::Some((e, q)) => sp_pipe_left_rest(s, q, elems.push(e), f),
                Option::None => match sp_operation(s, p2, f) {
                    Option::Some((end, q)) => match pipe_fold_left(elems, Option::Some(end)) {
                        Option::Some(n) => Option::Some((n, q)),
                        Option::None => Option::None,
                    },
                    Option::None => finish,
                },
            }
        } else {
            finish
        }
    }
}

/// A backward pipe: `f(..) <| g(..) <| v` folds right to left, appending
/// the value on the right as the last argument of the call to its left.
/// A single stage with no `<|` is just that call.
pub open spec fn sp_pipe_left(s: Seq<char>, pos: int, fuel: nat) -> Option<(TypeM, int)>
    decreases fuel,
{
    if fuel == 0 {
        Option::None
    } else {
        let f = (fuel - 1) as nat;
        match sp_pipe_elem(s, pos, f) {
            Option::Some((e, q)) => sp_pipe_left_rest(s, q, seq![e], f),
            Option::None => Option::None,
        }
    }
}

/// One forward-pipe step: the value so far is inserted as the first
/// argument of the next stage.
pub open spec fn pipe_step_right(last: Option<TypeM>, elem: TypeM) -> Option<TypeM> {
    match elem {
        TypeM::Call { callee, arguments } => Option::Some(
            TypeM::Call {
                callee,
                arguments: match last {
                    Option::Some(v) => seq![v] + arguments,
                    Option::None => arguments,
                },
            },
        ),
        _ => last,
    }
}

/// The tail of a forward pipe: more `|>` stages, folded left to right.
pub open spec fn sp_pipe_right_rest(
    s: Seq<char>,
    pos: int,
    last: Option<TypeM>,
    fuel: nat,
) -> Option<(TypeM, int)>
    decreases fuel,
{
    if fuel == 0 {
        Option::None
    } else {
        let f = (fuel - 1) as nat;
        let finish: Option<(TypeM, int)> = match last {
            Option::Some(n) => Option::Some((n, pos)),
            Option::None => Option::None,
        };
        let p = sp_skip_ws(s, pos);
        if sp_match(s, p, "|>"@) {
            let p2 = sp_skip_ws(s, p + 2);
            match sp_pipe_left(s, p2, f) {
                Option::Some((e, q)) => sp_pipe_right_rest(s, q, pipe_step_right(last, e), f),
                Option::None => finish,
            }
        } else {
            finish
        }
    }
}

/// A pipe expression: an optional `start |>` operand, then stages (each a
/// backward-pipe group) threaded left to right, the value so far becoming
/// the first argument of the next stage.  The rule only fires when a pipe
/// token actually follows; a plain call is left for the operator rules.
pub open spec fn sp_pipe(s: Seq<char>, pos: int, fuel: nat) -> Option<(TypeM, int)>
    decreases fuel,
{
    if fuel == 0 {
        Option::None
    } else {
        let f = (fuel - 1) as nat;
        let start: Option<(TypeM, int)> = match sp_operation(s, pos, f) {
            Option::Some((op, q)) => {
                let p = sp_skip_ws(s, q);
                if sp_match(s, p, "|>"@) {
                    Option::Some((op, p + 2))
                } else {
                    Option::None
                }
            },
            Option::None => Option::None,
        };
        match start {
            Option::Some((op, p0)) => {
                let cur = sp_skip_ws(s, p0);
                match sp_pipe_left(s, cur, f) {
                    Option::Some((e, q)) => sp_pipe_right_rest(
                        s,
                        q,
                        pipe_step_right(Option::Some(op), e),
                        f,
                    ),
                    Option::None => Option::None,
                }
            },
            Option::None => match sp_pipe_elem(s, pos, f) {
                Option::None => Option::None,
                Option::Some((e, q)) => {
                    let p = sp_skip_ws(s, q);
                    if sp_match(s, p, "<|"@) {
                        match sp_pipe_left_rest(s, q, seq![e], f) {
                            Option::Some((n, q2)) => sp_pipe_right_rest(
                                s,
                                q2,
                                Option::Some(n),
                                f,
                            ),
                            Option::None => Option::None,
                        }
                    } else if sp_match(s, p, "|>"@) {
                        sp_pipe_right_rest(s, q, pipe_step_right(Option::None, e), f)
                    } else {
                        Option::None
                    }
                },
            },
        }
    }
}

/// The parameter list of a function or lambda: symbols separated by commas,
/// closed by a parenthesis.
pub open spec fn sp_params(s: Seq<char>, pos: int, acc: Seq<Seq<char>>, fuel: nat) -> Option<
    (Seq<Seq<char>>, int),
>
    decreases fuel,
{
    if fuel == 0 {
        Option::None
    } else {
        let p = sp_skip_ws(s, pos);
        if sp_match(s, p, ")"@) {
            Option::Some((acc, p + 1))
        } else {
            match sp_symbol(s, p) {
                Option::None => Option::None,
                Option::Some((name, q)) => {
                    let q2 = sp_skip_ws(s, q);
                    if sp_match(s, q2, ","@) {
                        sp_params(s, q2 + 1, acc.push(name), (fuel - 1) as nat)
                    } else if sp_match(s, q2, ")"@) {
                        Option::Some((acc.push(name), q2 + 1))
                    } else {
                        Option::None
                    }
                },
            }
        }
    }
}

/// A named or anonymous function: `fn name(p1, p2) { body }`, the name
/// optional.
pub open spec fn sp_function(s: Seq<char>, pos: int, fuel: nat) -> Option<(TypeM, int)>
    decreases fuel,
{
    if fuel == 0 {
        Option::None
    } else if sp_match(s, pos, "fn"@) && pos + 2 < s.len() && (is_ws(s[pos + 2]) || s[pos + 2]
        == '(') {
        let f = (fuel - 1) as nat;
        let p = sp_skip_ws(s, pos + 2);
        let (name, p1): (Seq<char>, int) = match sp_symbol(s, p) {
            Option::Some((n, q)) => (n, sp_skip_ws(s, q)),
            Option::None => (Seq::empty(), p),
        };
        if sp_match(s, p1, "("@) {
            match sp_params(s, p1 + 1, Seq::empty(), f) {
                Option::None => Option::None,
                Option::Some((params, p2)) => {
                    let p3 = sp_skip_ws(s, p2);
                    match sp_block(s, p3, f) {
                        Option::Some((body, q)) => Option::Some(
                            (
                                TypeM::CreateFunction { name, code: body, parameters: params },
                                q,
                            ),
                        ),
                        Option::None => Option::None,
                    }
                },
            }
        } else {
            Option::None
        }
    } else {
        Option::None
    }
}

/// A lambda: `(p1, p2) => { body }`, an anonymous function.
pub open spec fn sp_lambda(s: Seq<char>, pos: int, fuel: nat) -> Option<(TypeM, int)>
    decreases fuel,
{
    if fuel == 0 {
        Option::None
    } else if sp_match(s, pos, "("@) {
        let f = (fuel - 1) as nat;
        match sp_params(s, pos + 1, Seq::empty(), f) {
            Option::None => Option::None,
            Option::Some((params, p2)) => {
                let p3 = sp_skip_ws(s, p2);
                if sp_match(s, p3, "=>"@) {
                    let p4 = sp_skip_ws(s, p3 + 2);
                    match sp_block(s, p4, f) {
                        Option::Some((body, q)) => Option::Some(
                            (
                                TypeM::CreateFunction {
                                    name: Seq::empty(),
                                    code: body,
                                    parameters: params,
                                },
                                q,
                            ),
                        ),
                        Option::None => Option::None,
                    }
                } else {
                    Option::None
                }
            },
        }
    } else {
        Option::None
    }
}

/// An `if` form: optional parentheses around the condition, a then-block,
/// and optionally `else` with a block or a chained `if`.
pub open spec fn sp_if(s: Seq<char>, pos: int, fuel: nat) -> Option<(TypeM, int)>
    decreases fuel,
{
    if fuel == 0 {
        Option::None
    } else if sp_match(s, pos, "if"@) {
        let f = (fuel - 1) as nat;
        let p = sp_skip_ws(s, pos + 2);
        let p1: int = if sp_match(s, p, "("@) {
            sp_skip_ws(s, p + 1)
        } else {
            p
        };
        match sp_operation(s, p1, f) {
            Option::None => Option::None,
            Option::Some((cond, q)) => {
                let q1 = sp_skip_ws(s, q);
                let q2: int = if sp_match(s, q1, ")"@) {
                    sp_skip_ws(s, q1 + 1)
                } else {
                    q1
                };
                match sp_block(s, q2, f) {
                    Option::None => Option::None,
                    Option::Some((then, q3)) => {
                        let q4 = sp_skip_ws(s, q3);
                        if sp_match(s, q4, "else"@) {
                            let q5 = sp_skip_ws(s, q4 + 4);
                            match sp_block(s, q5, f) {
                                Option::Some((other, q6)) => Option::Some(
                                    (
                                        TypeM::Conditional {
                                            condition: Box::new(cond),
                                            then,
                                            otherwise: Option::Some(other),
                                        },
                                        q6,
                                    ),
                                ),
                                Option::None => match sp_if(s, q5, f) {
                                    Option::Some((elif, q6)) => Option::Some(
                                        (
                                            TypeM::Conditional {
                                                condition: Box::new(cond),
                                                then,
                                                otherwise: Option::Some(seq![elif]),
                                            },
                                            q6,
                                        ),
                                    ),
                                    Option::None => Option::Some(
                                        (
                                            TypeM::Conditional {
                                                condition: Box::new(cond),
                                                then,
                                                otherwise: Option::None,
                                            },
                                            q3,
                                        ),
                                    ),
                                },
                            }
                        } else {
                            Option::Some(
                                (
                                    TypeM::Conditional {
                                        condition: Box::new(cond),
                                        then,
                                        otherwise: Option::None,
                                    },
                                    q3,
                                ),
                            )
                        }
                    },
                }
            },
        }
    } else {
        Option::None
    }
}

/// A `while` form: optional parentheses around the condition and a body
/// block.
pub open spec fn sp_while(s: Seq<char>, pos: int, fuel: nat) -> Option<(TypeM, int)>
    decreases fuel,
{
    if fuel == 0 {
        Option::None
    } else if sp_match(s, pos, "while"@) {
        let f = (fuel - 1) as nat;
        let p = sp_skip_ws(s, pos + 5);
        let p1: int = if sp_match(s, p, "("@) {
            sp_skip_ws(s, p + 1)
        } else {
            p
        };
        match sp_operation(s, p1, f) {
            Option::None => Option::None,
            Option::Some((cond, q)) => {
                let q1 = sp_skip_ws(s, q);
                let q2: int = if sp_match(s, q1, ")"@) {
                    sp_skip_ws(s, q1 + 1)
                } else {
                    q1
                };
                match sp_block(s, q2, f) {
                    Option::None => Option::None,
                    Option::Some((body, q3)) => Option::Some(
                        (TypeM::While { condition: Box::new(cond), code: body }, q3),
                    ),
                }
            },
        }
    } else {
        Option::None
    }
}

/// One statement, tried in order: comment, declaration, assignment, pipe
/// expression, lambda, named function, chain call, `if`, `while`, operator
/// expression.
pub open spec fn sp_stmt(s: Seq<char>, pos: int, fuel: nat) -> Option<(TypeM, int)>
    decreases fuel,
{
    if fuel == 0 {
        Option::None
    } else {
        let f = (fuel - 1) as nat;
        match sp_comment(s, pos) {
            Option::Some(r) => Option::Some(r),
            Option::None => match sp_declaration(s, pos, f) {
                Option::Some(r) => Option::Some(r),
                Option::None => match sp_assignment(s, pos, f) {
                    Option::Some(r) => Option::Some(r),
                    Option::None => match sp_pipe(s, pos, f) {
                        Option::Some(r) => Option::Some(r),
                        Option::None => match sp_lambda(s, pos, f) {
                            Option::Some(r) => Option::Some(r),
                            Option::None => match sp_function(s, pos, f) {
                                Option::Some(r) => Option::Some(r),
                                Option::None => match sp_chain_call(s, pos, f) {
                                    Option::Some(r) => Option::Some(r),
                                    Option::None => match sp_if(s, pos, f) {
                                        Option::Some(r) => Option::Some(r),
                                        Option::None => match sp_while(s, pos, f) {
                                            Option::Some(r) => Option::Some(r),
                                            Option::None => sp_operation(s, pos, f),
                                        },
                                    },
                                },
                            },
                        },
                    },
                },
            },
        }
    }
}

/// The parse budget for an input: ample for any statement nesting the input
/// could hold.
pub open spec fn parse_budget(n: nat) -> nat {
    if n > 0xffff_ffff_ffff {
        0xffff_ffff_ffff_ffff
    } else {
        (n + 2) * 64
    }
}

/// The parse of a whole program: statements until the input ends.  Anything
/// left over fails the parse with the position where it stopped.
pub open spec fn sp_program(s: Seq<char>) -> Result<Seq<TypeM>, Error> {
    let (stmts, p) = sp_stmts(s, 0, Seq::empty(), parse_budget(s.len()));
    if p == s.len() {
        Result::Ok(stmts)
    } else {
        Result::Err(Error::SyntaxError(p as usize))
    }
}


/// Model of a node parse result.
pub open spec fn pn_view(r: Option<(Type, usize)>) -> Option<(TypeM, int)> {
    match r {
        Option::Some((n, p)) => Option::Some((node_view(n), p as int)),
        Option::None => Option::None,
    }
}

/// Model of a name parse result.
pub open spec fn ps_view(r: Option<(String, usize)>) -> Option<(Seq<char>, int)> {
    match r {
        Option::Some((n, p)) => Option::Some((n@, p as int)),
        Option::None => Option::None,
    }
}

/// Model of a node-list parse result.
pub open spec fn pv_view(r: Option<(Vec<Type>, usize)>) -> Option<(Seq<TypeM>, int)> {
    match r {
        Option::Some((v, p)) => Option::Some((nodes_view(v@), p as int)),
        Option::None => Option::None,
    }
}

/// Model of a name-list parse result.
pub open spec fn pp_view(r: Option<(Vec<String>, usize)>) -> Option<(Seq<Seq<char>>, int)> {
    match r {
        Option::Some((v, p)) => Option::Some((strings_view(v@), p as int)),
        Option::None => Option::None,
    }
}

/// Whether `c` is whitespace.
fn ws_char(c: char) -> (r: bool)
    ensures
        r == is_ws(c),
{
    c == ' ' || c == '\t' || c == '\n' || c == '\r'
}

fn skip_ws(s: &Vec<char>, pos: usize) -> (r: usize)
    requires
        pos <= s@.len(),
    ensures
        r as int == sp_skip_ws(s@, pos as int),
        pos <= r <= s@.len(),
    decreases s@.len() - pos,
{
    if pos < s.len() && ws_char(s[pos]) {
        skip_ws(s, pos + 1)
    } else {
        pos
    }
}

fn skip_inline_ws(s: &Vec<char>, pos: usize) -> (r: usize)
    requires
        pos <= s@.len(),
    ensures
        r as int == sp_skip_inline_ws(s@, pos as int),
        pos <= r <= s@.len(),
    decreases s@.len() - pos,
{
    if pos < s.len() && (s[pos] == ' ' || s[pos] == '\t') {
        skip_inline_ws(s, pos + 1)
    } else {
        pos
    }
}

fn scan_num(s: &Vec<char>, pos: usize) -> (r: usize)
    requires
        pos <= s@.len(),
    ensures
        r as int == sp_scan_num(s@, pos as int),
        pos <= r <= s@.len(),
    decreases s@.len() - pos,
{
    if pos < s.len() && (crate::natives::digit(s[pos]) || s[pos] == '.' || s[pos] == '-') {
        scan_num(s, pos + 1)
    } else {
        pos
    }
}

fn scan_sym(s: &Vec<char>, pos: usize) -> (r: usize)
    requires
        pos <= s@.len(),
    ensures
        r as int == sp_scan_sym(s@, pos as int),
        pos <= r <= s@.len(),
    decreases s@.len() - pos,
{
    if pos < s.len() && s[pos] >= 'A' && s[pos] <= 'z' {
        scan_sym(s, pos + 1)
    } else {
        pos
    }
}

fn scan_digits(s: &Vec<char>, pos: usize) -> (r: usize)
    requires
        pos <= s@.len(),
    ensures
        r as int == sp_scan_digits(s@, pos as int),
        pos <= r <= s@.len(),
    decreases s@.len() - pos,
{
    if pos < s.len() && crate::natives::digit(s[pos]) {
        scan_digits(s, pos + 1)
    } else {
        pos
    }
}

fn scan_to(s: &Vec<char>, pos: usize, stop: char) -> (r: usize)
    requires
        pos <= s@.len(),
    ensures
        r as int == sp_scan_to(s@, pos as int, stop),
        pos <= r <= s@.len(),
    decreases s@.len() - pos,
{
    if pos < s.len() && s[pos] != stop {
        scan_to(s, pos + 1, stop)
    } else {
        pos
    }
}

/// Whether the text `w` stands at `pos`.
fn match_lit(s: &Vec<char>, pos: usize, w: &str) -> (r: bool)
    requires
        pos <= s@.len(),
    ensures
        r == sp_match(s@, pos as int, w@),
{
    let n = w.unicode_len();
    if n > s.len() - pos {
        return false;
    }
    let mut j: usize = 0;
    while j < n
        invariant
            j <= n,
            n == w@.len(),
            pos + n <= s@.len(),
            forall|k: int| 0 <= k < j ==> s@[pos + k] == w@[k],
        decreases n - j,
    {
        proof {
            assert(s.len() == s@.len());
            assert(pos + j < s@.len());
        }
        if s[pos + j] != w.get_char(j) {
            proof {
                assert(s@.subrange(pos as int, pos + n)[j as int] != w@[j as int]);
            }
            return false;
        }
        j = j + 1;
    }
    proof {
        assert(s@.subrange(pos as int, pos + n) =~= w@);
    }
    true
}

/// The text of `v[a..b]` as a string.
fn sub_string(v: &Vec<char>, a: usize, b: usize) -> (r: String)
    requires
        a <= b <= v@.len(),
    ensures
        r@ == v@.subrange(a as int, b as int),
{
    let mut chars: Vec<char> = Vec::new();
    let mut i = a;
    while i < b
        invariant
            a <= i <= b <= v@.len(),
            chars@.len() == i - a,
            forall|k: int| 0 <= k < chars@.len() ==> chars@[k] == v@[a + k],
        decreases b - i,
    {
        chars.push(v[i]);
        i = i + 1;
    }
    proof {
        assert(chars@ =~= v@.subrange(a as int, b as int));
    }
    crate::render::string_from_chars(&chars)
}

/// A number literal.
fn p_number(s: &Vec<char>, pos: usize) -> (r: Option<(Type, usize)>)
    requires
        pos <= s@.len(),
    ensures
        pn_view(r) == sp_number(s@, pos as int),
        (match r {
            Option::Some((_, p)) => pos < p <= s@.len(),
            Option::None => true,
        }),
{
    let end = scan_num(s, pos);
    if end == pos {
        return Option::None;
    }
    match crate::natives::parse_int_chars(s, pos, end) {
        Result::Ok(n) => Option::Some((Type::Number(n), end)),
        Result::Err(_) => Option::None,
    }
}

/// A symbol name.
fn p_symbol(s: &Vec<char>, pos: usize) -> (r: Option<(String, usize)>)
    requires
        pos <= s@.len(),
    ensures
        ps_view(r) == sp_symbol(s@, pos as int),
        (match r {
            Option::Some((_, p)) => pos < p <= s@.len(),
            Option::None => true,
        }),
{
    let end1 = scan_sym(s, pos);
    if end1 == pos {
        return Option::None;
    }
    let end = scan_digits(s, end1);
    Option::Some((sub_string(s, pos, end), end))
}

/// A string literal.
fn p_string_lit(s: &Vec<char>, pos: usize) -> (r: Option<(Type, usize)>)
    requires
        pos <= s@.len(),
    ensures
        pn_view(r) == sp_string_lit(s@, pos as int),
        (match r {
            Option::Some((_, p)) => pos < p <= s@.len(),
            Option::None => true,
        }),
{
    if pos < s.len() && s[pos] == '"' {
        let end = scan_to(s, pos + 1, '"');
        if end < s.len() {
            Option::Some((Type::Str(sub_string(s, pos + 1, end)), end + 1))
        } else {
            Option::None
        }
    } else {
        Option::None
    }
}

/// A comment line.
fn p_comment(s: &Vec<char>, pos: usize) -> (r: Option<(Type, usize)>)
    requires
        pos <= s@.len(),
    ensures
        pn_view(r) == sp_comment(s@, pos as int),
        (match r {
            Option::Some((_, p)) => pos < p <= s@.len(),
            Option::None => true,
        }),
{
    if match_lit(s, pos, "//") {
        proof {
            reveal_strlit("//");
            assert(s.len() == s@.len());
        }
        let end = scan_to(s, pos + 2, '\n');
        let node = Type::Comment(sub_string(s, pos + 2, end));
        if end < s.len() {
            Option::Some((node, end + 1))
        } else {
            Option::Some((node, end))
        }
    } else {
        Option::None
    }
}

/// An operator call on two operands.
fn mk_binop(name: &str, x: Type, y: Type) -> (r: Type)
    ensures
        node_view(r) == sp_binop(name@, node_view(x), node_view(y)),
{
    let ghost xv = node_view(x);
    let ghost yv = node_view(y);
    let mut args: Vec<Type> = Vec::new();
    args.push(x);
    args.push(y);
    proof {
        assert(nodes_view(args@) =~= seq![xv, yv]);
    }
    let r = Type::Call { callee: String::from_str(name), arguments: args };
    proof {
        reveal_with_fuel(node_view, 2);
    }
    r
}


/// An assignment node.
fn mk_assign(name: String, value: Type) -> (r: Type)
    ensures
        node_view(r) == (TypeM::Assignment { variable: name@, value: Box::new(node_view(value)) }),
{
    let r = Type::Assignment { variable: name, value: Box::new(value) };
    proof {
        reveal_with_fuel(node_view, 2);
    }
    r
}

/// The arguments of a call.
fn p_call_args(s: &Vec<char>, pos: usize, acc: Vec<Type>, fuel: u64) -> (r: Option<
    (Vec<Type>, usize),
>)
    requires
        pos <= s@.len(),
    ensures
        pv_view(r) == sp_call_args(s@, pos as int, nodes_view(acc@), fuel as nat),
        (match r {
            Option::Some((_, p)) => p <= s@.len(),
            Option::None => true,
        }),
    decreases fuel,
{
    if fuel == 0 {
        return Option::None;
    }
    let p = skip_ws(s, pos);
    if match_lit(s, p, ")") {
        proof {
            reveal_strlit(")");
            assert(s.len() == s@.len());
        }
        return Option::Some((acc, p + 1));
    }
    match p_stmt(s, p, fuel - 1) {
        Option::None => Option::None,
        Option::Some((n, q)) => {
            let q2 = skip_ws(s, q);
            let ghost nv = node_view(n);
            let ghost av = nodes_view(acc@);
            let mut acc2 = acc;
            acc2.push(n);
            proof {
                assert(nodes_view(acc2@) =~= av.push(nv));
            }
            if match_lit(s, q2, ",") {
                proof {
                    reveal_strlit(",");
                    assert(s.len() == s@.len());
                }
                p_call_args(s, q2 + 1, acc2, fuel - 1)
            } else if match_lit(s, q2, ")") {
                proof {
                    reveal_strlit(")");
                    assert(s.len() == s@.len());
                }
                Option::Some((acc2, q2 + 1))
            } else {
                Option::None
            }
        },
    }
}

/// A call.
fn p_call(s: &Vec<char>, pos: usize, fuel: u64) -> (r: Option<(Type, usize)>)
    requires
        pos <= s@.len(),
    ensures
        pn_view(r) == sp_call(s@, pos as int, fuel as nat),
        (match r {
            Option::Some((_, p)) => p <= s@.len(),
            Option::None => true,
        }),
    decreases fuel,
{
    if fuel == 0 {
        return Option::None;
    }
    match p_symbol(s, pos) {
        Option::None => Option::None,
        Option::Some((name, p1)) => {
            if str_eq_lit(&name, "if") || str_eq_lit(&name, "while") {
                return Option::None;
            }
            let p2 = skip_ws(s, p1);
            if match_lit(s, p2, "(") {
                proof {
                    reveal_strlit("(");
                    assert(s.len() == s@.len());
                }
                let empty_acc: Vec<Type> = Vec::new();
                proof {
                    assert(nodes_view(empty_acc@) =~= Seq::<TypeM>::empty());
                }
                match p_call_args(s, p2 + 1, empty_acc, fuel - 1) {
                    Option::Some((args, q)) => {
                        let r = Type::Call { callee: name, arguments: args };
                        proof {
                            reveal_with_fuel(node_view, 2);
                        }
                        Option::Some((r, q))
                    },
                    Option::None => Option::None,
                }
            } else {
                Option::None
            }
        },
    }
}

/// The arguments of a chain call.
fn p_chain_args(s: &Vec<char>, pos: usize, acc: Vec<Type>, first: bool, fuel: u64) -> (r: (
    Vec<Type>,
    usize,
))
    requires
        pos <= s@.len(),
    ensures
        ({
            let (se, sp) = sp_chain_args(s@, pos as int, nodes_view(acc@), first, fuel as nat);
            nodes_view(r.0@) == se && r.1 as int == sp
        }),
        r.1 <= s@.len(),
    decreases fuel,
{
    if fuel == 0 {
        return (acc, pos);
    }
    let p = skip_inline_ws(s, pos);
    if !first && p == pos {
        return (acc, pos);
    }
    match p_operation(s, p, fuel - 1) {
        Option::Some((e, q)) => {
            let ghost ev = node_view(e);
            let ghost av = nodes_view(acc@);
            let mut acc2 = acc;
            acc2.push(e);
            proof {
                assert(nodes_view(acc2@) =~= av.push(ev));
            }
            p_chain_args(s, q, acc2, false, fuel - 1)
        },
        Option::None => (acc, pos),
    }
}

/// A chain call.
fn p_chain_call(s: &Vec<char>, pos: usize, fuel: u64) -> (r: Option<(Type, usize)>)
    requires
        pos <= s@.len(),
    ensures
        pn_view(r) == sp_chain_call(s@, pos as int, fuel as nat),
        (match r {
            Option::Some((_, p)) => p <= s@.len(),
            Option::None => true,
        }),
    decreases fuel,
{
    if fuel == 0 {
        return Option::None;
    }
    if match_lit(s, pos, "$") {
        proof {
            reveal_strlit("$");
            assert(s.len() == s@.len());
        }
        let p = skip_ws(s, pos + 1);
        match p_symbol(s, p) {
            Option::None => Option::None,
            Option::Some((name, p1)) => {
                let empty_acc: Vec<Type> = Vec::new();
                proof {
                    assert(nodes_view(empty_acc@) =~= Seq::<TypeM>::empty());
                }
                let (args, q) = p_chain_args(s, p1, empty_acc, true, fuel - 1);
                let r = Type::Call { callee: name, arguments: args };
                proof {
                    reveal_with_fuel(node_view, 2);
                }
                Option::Some((r, q))
            },
        }
    } else {
        Option::None
    }
}

/// An atom.
fn p_atom(s: &Vec<char>, pos: usize, fuel: u64) -> (r: Option<(Type, usize)>)
    requires
        pos <= s@.len(),
    ensures
        pn_view(r) == sp_atom(s@, pos as int, fuel as nat),
        (match r {
            Option::Some((_, p)) => p <= s@.len(),
            Option::None => true,
        }),
    decreases fuel,
{
    if fuel == 0 {
        return Option::None;
    }
    if let Option::Some(r) = p_chain_call(s, pos, fuel - 1) {
        return Option::Some(r);
    }
    if let Option::Some(r) = p_call(s, pos, fuel - 1) {
        return Option::Some(r);
    }
    if let Option::Some(r) = p_while(s, pos, fuel - 1) {
        return Option::Some(r);
    }
    if let Option::Some(r) = p_if(s, pos, fuel - 1) {
        return Option::Some(r);
    }
    if let Option::Some(r) = p_number(s, pos) {
        return Option::Some(r);
    }
    if let Option::Some((name, q)) = p_symbol(s, pos) {
        return Option::Some((Type::Symbol(name), q));
    }
    if let Option::Some(r) = p_string_lit(s, pos) {
        return Option::Some(r);
    }
    if match_lit(s, pos, "(") {
        proof {
            reveal_strlit("(");
            assert(s.len() == s@.len());
        }
        let p = skip_ws(s, pos + 1);
        match p_atom(s, p, fuel - 1) {
            Option::Some((n, q)) => {
                let q2 = skip_ws(s, q);
                if match_lit(s, q2, ")") {
                    proof {
                        reveal_strlit(")");
                        assert(s.len() == s@.len());
                    }
                    Option::Some((n, q2 + 1))
                } else {
                    Option::None
                }
            },
            Option::None => Option::None,
        }
    } else {
        Option::None
    }
}

/// An atom or a parenthesized additive expression.
fn p_arith_base(s: &Vec<char>, pos: usize, fuel: u64) -> (r: Option<(Type, usize)>)
    requires
        pos <= s@.len(),
    ensures
        pn_view(r) == sp_arith_base(s@, pos as int, fuel as nat),
        (match r {
            Option::Some((_, p)) => p <= s@.len(),
            Option::None => true,
        }),
    decreases fuel,
{
    if fuel == 0 {
        return Option::None;
    }
    if let Option::Some(r) = p_atom(s, pos, fuel - 1) {
        return Option::Some(r);
    }
    if match_lit(s, pos, "(") {
        proof {
            reveal_strlit("(");
            assert(s.len() == s@.len());
        }
        let p = skip_ws(s, pos + 1);
        match p_add(s, p, fuel - 1) {
            Option::Some((n, q)) => {
                let q2 = skip_ws(s, q);
                if match_lit(s, q2, ")") {
                    proof {
                        reveal_strlit(")");
                        assert(s.len() == s@.len());
                    }
                    Option::Some((n, q2 + 1))
                } else {
                    Option::None
                }
            },
            Option::None => Option::None,
        }
    } else {
        Option::None
    }
}

/// The `**`/`%` chain after a first operand.
fn p_powmod_rest(s: &Vec<char>, acc: Type, pos: usize, fuel: u64) -> (r: (Type, usize))
    requires
        pos <= s@.len(),
    ensures
        ({
            let (n, p) = sp_powmod_rest(s@, node_view(acc), pos as int, fuel as nat);
            node_view(r.0) == n && r.1 as int == p
        }),
        r.1 <= s@.len(),
    decreases fuel,
{
    if fuel == 0 {
        return (acc, pos);
    }
    let p = skip_ws(s, pos);
    let is_pow = match_lit(s, p, "**");
    let is_mod = match_lit(s, p, "%");
    proof {
        reveal_strlit("**");
        reveal_strlit("%");
        reveal_strlit("__pow__");
        reveal_strlit("__mod__");
        assert(s.len() == s@.len());
    }
    if !is_pow && !is_mod {
        return (acc, pos);
    }
    let w: usize = if is_pow {
        2
    } else {
        1
    };
    let p2 = skip_ws(s, p + w);
    match p_arith_base(s, p2, fuel - 1) {
        Option::Some((rhs, q)) => {
            let node = mk_binop(if is_pow { "__pow__" } else { "__mod__" }, acc, rhs);
            p_powmod_rest(s, node, q, fuel - 1)
        },
        Option::None => (acc, pos),
    }
}

fn p_powmod(s: &Vec<char>, pos: usize, fuel: u64) -> (r: Option<(Type, usize)>)
    requires
        pos <= s@.len(),
    ensures
        pn_view(r) == sp_powmod(s@, pos as int, fuel as nat),
        (match r {
            Option::Some((_, p)) => p <= s@.len(),
            Option::None => true,
        }),
    decreases fuel,
{
    if fuel == 0 {
        return Option::None;
    }
    match p_arith_base(s, pos, fuel - 1) {
        Option::Some((lhs, q)) => Option::Some(p_powmod_rest(s, lhs, q, fuel - 1)),
        Option::None => Option::None,
    }
}

/// The `*`/`/` chain after a first operand.
fn p_mul_rest(s: &Vec<char>, acc: Type, pos: usize, fuel: u64) -> (r: (Type, usize))
    requires
        pos <= s@.len(),
    ensures
        ({
            let (n, p) = sp_mul_rest(s@, node_view(acc), pos as int, fuel as nat);
            node_view(r.0) == n && r.1 as int == p
        }),
        r.1 <= s@.len(),
    decreases fuel,
{
    if fuel == 0 {
        return (acc, pos);
    }
    let p = skip_ws(s, pos);
    let is_mul = match_lit(s, p, "*") && !match_lit(s, p, "**");
    let is_div = match_lit(s, p, "/") && !match_lit(s, p, "//");
    proof {
        reveal_strlit("*");
        reveal_strlit("/");
        reveal_strlit("__mul__");
        reveal_strlit("__div__");
        assert(s.len() == s@.len());
    }
    if !is_mul && !is_div {
        return (acc, pos);
    }
    let p2 = skip_ws(s, p + 1);
    match p_powmod(s, p2, fuel - 1) {
        Option::Some((rhs, q)) => {
            let node = mk_binop(if is_mul { "__mul__" } else { "__div__" }, acc, rhs);
            p_mul_rest(s, node, q, fuel - 1)
        },
        Option::None => (acc, pos),
    }
}

fn p_mul(s: &Vec<char>, pos: usize, fuel: u64) -> (r: Option<(Type, usize)>)
    requires
        pos <= s@.len(),
    ensures
        pn_view(r) == sp_mul(s@, pos as int, fuel as nat),
        (match r {
            Option::Some((_, p)) => p <= s@.len(),
            Option::None => true,
        }),
    decreases fuel,
{
    if fuel == 0 {
        return Option::None;
    }
    match p_powmod(s, pos, fuel - 1) {
        Option::Some((lhs, q)) => Option::Some(p_mul_rest(s, lhs, q, fuel - 1)),
        Option::None => Option::None,
    }
}

/// The `+`/`-` chain after a first operand.
fn p_add_rest(s: &Vec<char>, acc: Type, pos: usize, fuel: u64) -> (r: (Type, usize))
    requires
        pos <= s@.len(),
    ensures
        ({
            let (n, p) = sp_add_rest(s@, node_view(acc), pos as int, fuel as nat);
            node_view(r.0) == n && r.1 as int == p
        }),
        r.1 <= s@.len(),
    decreases fuel,
{
    if fuel == 0 {
        return (acc, pos);
    }
    let p = skip_ws(s, pos);
    let is_add = match_lit(s, p, "+") && !match_lit(s, p, "++") && !match_lit(s, p, "+=");
    let is_sub = match_lit(s, p, "-") && !match_lit(s, p, "--") && !match_lit(s, p, "-=");
    proof {
        reveal_strlit("+");
        reveal_strlit("-");
        reveal_strlit("__add__");
        reveal_strlit("__sub__");
        assert(s.len() == s@.len());
    }
    if !is_add && !is_sub {
        return (acc, pos);
    }
    let p2 = skip_ws(s, p + 1);
    match p_mul(s, p2, fuel - 1) {
        Option::Some((rhs, q)) => {
            let node = mk_binop(if is_add { "__add__" } else { "__sub__" }, acc, rhs);
            p_add_rest(s, node, q, fuel - 1)
        },
        Option::None => (acc, pos),
    }
}

fn p_add(s: &Vec<char>, pos: usize, fuel: u64) -> (r: Option<(Type, usize)>)
    requires
        pos <= s@.len(),
    ensures
        pn_view(r) == sp_add(s@, pos as int, fuel as nat),
        (match r {
            Option::Some((_, p)) => p <= s@.len(),
            Option::None => true,
        }),
    decreases fuel,
{
    if fuel == 0 {
        return Option::None;
    }
    match p_mul(s, pos, fuel - 1) {
        Option::Some((lhs, q)) => Option::Some(p_add_rest(s, lhs, q, fuel - 1)),
        Option::None => Option::None,
    }
}

/// An additive expression or a parenthesized full operation.
fn p_op_base(s: &Vec<char>, pos: usize, fuel: u64) -> (r: Option<(Type, usize)>)
    requires
        pos <= s@.len(),
    ensures
        pn_view(r) == sp_op_base(s@, pos as int, fuel as nat),
        (match r {
            Option::Some((_, p)) => p <= s@.len(),
            Option::None => true,
        }),
    decreases fuel,
{
    if fuel == 0 {
        return Option::None;
    }
    if let Option::Some(r) = p_add(s, pos, fuel - 1) {
        return Option::Some(r);
    }
    if match_lit(s, pos, "(") {
        proof {
            reveal_strlit("(");
            assert(s.len() == s@.len());
        }
        let p = skip_ws(s, pos + 1);
        match p_operation(s, p, fuel - 1) {
            Option::Some((n, q)) => {
                let q2 = skip_ws(s, q);
                if match_lit(s, q2, ")") {
                    proof {
                        reveal_strlit(")");
                        assert(s.len() == s@.len());
                    }
                    Option::Some((n, q2 + 1))
                } else {
                    Option::None
                }
            },
            Option::None => Option::None,
        }
    } else {
        Option::None
    }
}

/// The unary `!` level.
fn p_unary(s: &Vec<char>, pos: usize, fuel: u64) -> (r: Option<(Type, usize)>)
    requires
        pos <= s@.len(),
    ensures
        pn_view(r) == sp_unary(s@, pos as int, fuel as nat),
        (match r {
            Option::Some((_, p)) => p <= s@.len(),
            Option::None => true,
        }),
    decreases fuel,
{
    if fuel == 0 {
        return Option::None;
    }
    if match_lit(s, pos, "!") && !match_lit(s, pos, "!=") {
        proof {
            reveal_strlit("!");
            reveal_strlit("__not__");
            assert(s.len() == s@.len());
        }
        let p = skip_ws(s, pos + 1);
        match p_unary(s, p, fuel - 1) {
            Option::Some((x, q)) => {
                let ghost xv = node_view(x);
                let mut args: Vec<Type> = Vec::new();
                args.push(x);
                proof {
                    assert(nodes_view(args@) =~= seq![xv]);
                }
                let r = Type::Call { callee: String::from_str("__not__"), arguments: args };
                proof {
                    reveal_with_fuel(node_view, 2);
                }
                Option::Some((r, q))
            },
            Option::None => Option::None,
        }
    } else {
        p_op_base(s, pos, fuel - 1)
    }
}

/// The relational chain after a first operand.
fn p_rel_rest(s: &Vec<char>, acc: Type, pos: usize, fuel: u64) -> (r: (Type, usize))
    requires
        pos <= s@.len(),
    ensures
        ({
            let (n, p) = sp_rel_rest(s@, node_view(acc), pos as int, fuel as nat);
            node_view(r.0) == n && r.1 as int == p
        }),
        r.1 <= s@.len(),
    decreases fuel,
{
    if fuel == 0 {
        return (acc, pos);
    }
    let p = skip_ws(s, pos);
    let is_le = match_lit(s, p, "<=");
    let is_ge = match_lit(s, p, ">=");
    let is_lt = !is_le && !is_ge && match_lit(s, p, "<") && !match_lit(s, p, "<|");
    let is_gt = !is_le && !is_ge && match_lit(s, p, ">");
    proof {
        reveal_strlit("<=");
        reveal_strlit(">=");
        reveal_strlit("<");
        reveal_strlit(">");
        reveal_strlit("__le__");
        reveal_strlit("__ge__");
        reveal_strlit("__lt__");
        reveal_strlit("__gt__");
        assert(s.len() == s@.len());
    }
    if !is_le && !is_ge && !is_lt && !is_gt {
        return (acc, pos);
    }
    let w: usize = if is_le || is_ge {
        2
    } else {
        1
    };
    let p2 = skip_ws(s, p + w);
    match p_unary(s, p2, fuel - 1) {
        Option::Some((rhs, q)) => {
            let opname = if is_le {
                "__le__"
            } else if is_ge {
                "__ge__"
            } else if is_lt {
                "__lt__"
            } else {
                "__gt__"
            };
            let node = mk_binop(opname, acc, rhs);
            p_rel_rest(s, node, q, fuel - 1)
        },
        Option::None => (acc, pos),
    }
}

fn p_relational(s: &Vec<char>, pos: usize, fuel: u64) -> (r: Option<(Type, usize)>)
    requires
        pos <= s@.len(),
    ensures
        pn_view(r) == sp_relational(s@, pos as int, fuel as nat),
        (match r {
            Option::Some((_, p)) => p <= s@.len(),
            Option::None => true,
        }),
    decreases fuel,
{
    if fuel == 0 {
        return Option::None;
    }
    match p_unary(s, pos, fuel - 1) {
        Option::Some((lhs, q)) => Option::Some(p_rel_rest(s, lhs, q, fuel - 1)),
        Option::None => Option::None,
    }
}

/// The equality chain after a first operand.
fn p_eq_rest(s: &Vec<char>, acc: Type, pos: usize, fuel: u64) -> (r: (Type, usize))
    requires
        pos <= s@.len(),
    ensures
        ({
            let (n, p) = sp_eq_rest(s@, node_view(acc), pos as int, fuel as nat);
            node_view(r.0) == n && r.1 as int == p
        }),
        r.1 <= s@.len(),
    decreases fuel,
{
    if fuel == 0 {
        return (acc, pos);
    }
    let p = skip_ws(s, pos);
    let is_eq = match_lit(s, p, "==");
    let is_ne = match_lit(s, p, "!=");
    proof {
        reveal_strlit("==");
        reveal_strlit("!=");
        reveal_strlit("__eq__");
        reveal_strlit("__ne__");
        assert(s.len() == s@.len());
    }
    if !is_eq && !is_ne {
        return (acc, pos);
    }
    let p2 = skip_ws(s, p + 2);
    match p_relational(s, p2, fuel - 1) {
        Option::Some((rhs, q)) => {
            let node = mk_binop(if is_eq { "__eq__" } else { "__ne__" }, acc, rhs);
            p_eq_rest(s, node, q, fuel - 1)
        },
        Option::None => (acc, pos),
    }
}

fn p_equality(s: &Vec<char>, pos: usize, fuel: u64) -> (r: Option<(Type, usize)>)
    requires
        pos <= s@.len(),
    ensures
        pn_view(r) == sp_equality(s@, pos as int, fuel as nat),
        (match r {
            Option::Some((_, p)) => p <= s@.len(),
            Option::None => true,
        }),
    decreases fuel,
{
    if fuel == 0 {
        return Option::None;
    }
    match p_relational(s, pos, fuel - 1) {
        Option::Some((lhs, q)) => Option::Some(p_eq_rest(s, lhs, q, fuel - 1)),
        Option::None => Option::None,
    }
}

/// The logical chain after a first operand.
fn p_logic_rest(s: &Vec<char>, acc: Type, pos: usize, fuel: u64) -> (r: (Type, usize))
    requires
        pos <= s@.len(),
    ensures
        ({
            let (n, p) = sp_logic_rest(s@, node_view(acc), pos as int, fuel as nat);
            node_view(r.0) == n && r.1 as int == p
        }),
        r.1 <= s@.len(),
    decreases fuel,
{
    if fuel == 0 {
        return (acc, pos);
    }
    let p = skip_ws(s, pos);
    let is_and = match_lit(s, p, "&&");
    let is_or = match_lit(s, p, "||");
    proof {
        reveal_strlit("&&");
        reveal_strlit("||");
        reveal_strlit("__and__");
        reveal_strlit("__or__");
        assert(s.len() == s@.len());
    }
    if !is_and && !is_or {
        return (acc, pos);
    }
    let p2 = skip_ws(s, p + 2);
    match p_equality(s, p2, fuel - 1) {
        Option::Some((rhs, q)) => {
            let node = mk_binop(if is_and { "__and__" } else { "__or__" }, acc, rhs);
            p_logic_rest(s, node, q, fuel - 1)
        },
        Option::None => (acc, pos),
    }
}

fn p_logical(s: &Vec<char>, pos: usize, fuel: u64) -> (r: Option<(Type, usize)>)
    requires
        pos <= s@.len(),
    ensures
        pn_view(r) == sp_logical(s@, pos as int, fuel as nat),
        (match r {
            Option::Some((_, p)) => p <= s@.len(),
            Option::None => true,
        }),
    decreases fuel,
{
    if fuel == 0 {
        return Option::None;
    }
    match p_equality(s, pos, fuel - 1) {
        Option::Some((lhs, q)) => Option::Some(p_logic_rest(s, lhs, q, fuel - 1)),
        Option::None => Option::None,
    }
}

/// The compound-assignment forms.
fn p_compound(s: &Vec<char>, pos: usize, fuel: u64) -> (r: Option<(Type, usize)>)
    requires
        pos <= s@.len(),
    ensures
        pn_view(r) == sp_compound(s@, pos as int, fuel as nat),
        (match r {
            Option::Some((_, p)) => p <= s@.len(),
            Option::None => true,
        }),
    decreases fuel,
{
    if fuel == 0 {
        return Option::None;
    }
    match p_symbol(s, pos) {
        Option::None => Option::None,
        Option::Some((name, p1)) => {
            let p = skip_ws(s, p1);
            proof {
                reveal_strlit("++");
                reveal_strlit("--");
                reveal_strlit("**=");
                reveal_strlit("+=");
                reveal_strlit("-=");
                reveal_strlit("*=");
                reveal_strlit("/=");
                reveal_strlit("%=");
                reveal_strlit("__add__");
                reveal_strlit("__sub__");
                reveal_strlit("__pow__");
                reveal_strlit("__mul__");
                reveal_strlit("__div__");
                reveal_strlit("__mod__");
                assert(s.len() == s@.len());
            }
            if match_lit(s, p, "++") {
                let call = mk_binop("__add__", Type::Symbol(name.clone()), Type::Number(1));
                return Option::Some((mk_assign(name, call), p + 2));
            }
            if match_lit(s, p, "--") {
                let call = mk_binop("__sub__", Type::Symbol(name.clone()), Type::Number(1));
                return Option::Some((mk_assign(name, call), p + 2));
            }
            let is_pow = match_lit(s, p, "**=");
            let is_add = match_lit(s, p, "+=");
            let is_sub = match_lit(s, p, "-=");
            let is_mul = !is_pow && match_lit(s, p, "*=");
            let is_div = match_lit(s, p, "/=");
            let is_mod = match_lit(s, p, "%=");
            if !(is_pow || is_add || is_sub || is_mul || is_div || is_mod) {
                return Option::None;
            }
            let w: usize = if is_pow {
                3
            } else {
                2
            };
            let p2 = skip_ws(s, p + w);
            match p_logical(s, p2, fuel - 1) {
                Option::Some((rhs, q)) => {
                    let opname = if is_pow {
                        "__pow__"
                    } else if is_add {
                        "__add__"
                    } else if is_sub {
                        "__sub__"
                    } else if is_mul {
                        "__mul__"
                    } else if is_div {
                        "__div__"
                    } else {
                        "__mod__"
                    };
                    let call = mk_binop(opname, Type::Symbol(name.clone()), rhs);
                    Option::Some((mk_assign(name, call), q))
                },
                Option::None => Option::None,
            }
        },
    }
}

/// A full operator expression.
fn p_operation(s: &Vec<char>, pos: usize, fuel: u64) -> (r: Option<(Type, usize)>)
    requires
        pos <= s@.len(),
    ensures
        pn_view(r) == sp_operation(s@, pos as int, fuel as nat),
        (match r {
            Option::Some((_, p)) => p <= s@.len(),
            Option::None => true,
        }),
    decreases fuel,
{
    if fuel == 0 {
        return Option::None;
    }
    if let Option::Some(r) = p_compound(s, pos, fuel - 1) {
        return Option::Some(r);
    }
    p_logical(s, pos, fuel - 1)
}


/// A declaration statement.
fn p_declaration(s: &Vec<char>, pos: usize, fuel: u64) -> (r: Option<(Type, usize)>)
    requires
        pos <= s@.len(),
    ensures
        pn_view(r) == sp_declaration(s@, pos as int, fuel as nat),
        (match r {
            Option::Some((_, p)) => p <= s@.len(),
            Option::None => true,
        }),
    decreases fuel,
{
    if fuel == 0 {
        return Option::None;
    }
    proof {
        reveal_strlit("let");
        reveal_strlit("=");
        assert(s.len() == s@.len());
    }
    if match_lit(s, pos, "let") && pos + 3 < s.len() && ws_char(s[pos + 3]) {
        let p = skip_ws(s, pos + 3);
        match p_symbol(s, p) {
            Option::None => Option::None,
            Option::Some((name, p1)) => {
                let p2 = skip_ws(s, p1);
                if match_lit(s, p2, "=") {
                    let p3 = skip_ws(s, p2 + 1);
                    match p_stmt(s, p3, fuel - 1) {
                        Option::Some((v, q)) => {
                            let node = Type::VariableDeclaration {
                                variable: name,
                                value: Box::new(v),
                            };
                            proof {
                                reveal_with_fuel(node_view, 2);
                            }
                            Option::Some((node, q))
                        },
                        Option::None => Option::None,
                    }
                } else {
                    Option::None
                }
            },
        }
    } else {
        Option::None
    }
}

/// An assignment statement.
fn p_assignment(s: &Vec<char>, pos: usize, fuel: u64) -> (r: Option<(Type, usize)>)
    requires
        pos <= s@.len(),
    ensures
        pn_view(r) == sp_assignment(s@, pos as int, fuel as nat),
        (match r {
            Option::Some((_, p)) => p <= s@.len(),
            Option::None => true,
        }),
    decreases fuel,
{
    if fuel == 0 {
        return Option::None;
    }
    match p_symbol(s, pos) {
        Option::None => Option::None,
        Option::Some((name, p1)) => {
            let p2 = skip_ws(s, p1);
            proof {
                reveal_strlit("=");
                reveal_strlit("==");
                assert(s.len() == s@.len());
            }
            if match_lit(s, p2, "=") && !match_lit(s, p2, "==") {
                let p3 = skip_ws(s, p2 + 1);
                match p_stmt(s, p3, fuel - 1) {
                    Option::Some((v, q)) => Option::Some((mk_assign(name, v), q)),
                    Option::None => Option::None,
                }
            } else {
                Option::None
            }
        },
    }
}

/// One stage of a backward pipe.
fn p_pipe_elem(s: &Vec<char>, pos: usize, fuel: u64) -> (r: Option<(Type, usize)>)
    requires
        pos <= s@.len(),
    ensures
        pn_view(r) == sp_pipe_elem(s@, pos as int, fuel as nat),
        (match r {
            Option::Some((_, p)) => p <= s@.len(),
            Option::None => true,
        }),
    decreases fuel,
{
    if fuel == 0 {
        return Option::None;
    }
    if let Option::Some(r) = p_chain_call(s, pos, fuel - 1) {
        return Option::Some(r);
    }
    p_call(s, pos, fuel - 1)
}

/// Folds backward-pipe stages right to left.
fn exec_pipe_fold_left(elems: &Vec<Type>, i: usize, end: Option<Type>) -> (r: Option<Type>)
    requires
        i <= elems@.len(),
    ensures
        crate::interp::opt_view(r) == pipe_fold_left(
            nodes_view(elems@).skip(i as int),
            crate::interp::opt_view(end),
        ),
    decreases elems@.len() - i,
{
    let ghost whole = nodes_view(elems@).skip(i as int);
    if i == elems.len() {
        proof {
            assert(whole =~= Seq::<TypeM>::empty());
        }
        return end;
    }
    let inner = exec_pipe_fold_left(elems, i + 1, end);
    proof {
        assert(whole.drop_first() =~= nodes_view(elems@).skip(i + 1));
        assert(whole[0] == node_view(elems@[i as int]));
    }
    match &elems[i] {
        Type::Call { callee, arguments } => {
            proof {
                assert(decreases_to!(elems@ => elems@[i as int]));
            }
            let mut args2 = crate::ast::clone_nodes(arguments);
            let ghost a2v = nodes_view(args2@);
            let r = match inner {
                Option::Some(v) => {
                    let ghost vv = node_view(v);
                    args2.push(v);
                    proof {
                        assert(nodes_view(args2@) =~= a2v.push(vv));
                    }
                    Type::Call { callee: callee.clone(), arguments: args2 }
                },
                Option::None => Type::Call { callee: callee.clone(), arguments: args2 },
            };
            proof {
                reveal_with_fuel(node_view, 2);
            }
            Option::Some(r)
        },
        _ => inner,
    }
}

/// One forward-pipe step.
fn exec_pipe_step(last: Option<Type>, elem: Type) -> (r: Option<Type>)
    ensures
        crate::interp::opt_view(r) == pipe_step_right(
            crate::interp::opt_view(last),
            node_view(elem),
        ),
{
    match elem {
        Type::Call { callee, arguments } => {
            proof {
                reveal_with_fuel(node_view, 2);
            }
            let mut args2: Vec<Type> = Vec::new();
            let ghost had = crate::interp::opt_view(last);
            match last {
                Option::Some(v) => {
                    args2.push(v);
                },
                Option::None => {},
            }
            let n = arguments.len();
            let ghost base = args2@.len() as int;
            let ghost argv = nodes_view(arguments@);
            let mut j: usize = 0;
            while j < n
                invariant
                    j <= n,
                    n == arguments@.len(),
                    argv == nodes_view(arguments@),
                    args2@.len() == base + j,
                    base == (if had is Some { 1int } else { 0int }),
                    had is Some ==> node_view(args2@[0]) == had->0,
                    forall|k: int| 0 <= k < j ==> node_view(args2@[base + k]) == argv[k],
                decreases n - j,
            {
                proof {
                    assert(decreases_to!(arguments@ => arguments@[j as int]));
                }
                args2.push(arguments[j].clone());
                j = j + 1;
            }
            let r = Type::Call { callee, arguments: args2 };
            proof {
                reveal_with_fuel(node_view, 2);
                match had {
                    Option::Some(v) => {
                        assert(nodes_view(args2@) =~= seq![v] + argv);
                    },
                    Option::None => {
                        assert(nodes_view(args2@) =~= argv);
                    },
                }
            }
            Option::Some(r)
        },
        _ => last,
    }
}

/// The tail of a backward pipe.
fn p_pipe_left_rest(s: &Vec<char>, pos: usize, elems: Vec<Type>, fuel: u64) -> (r: Option<
    (Type, usize),
>)
    requires
        pos <= s@.len(),
    ensures
        pn_view(r) == sp_pipe_left_rest(s@, pos as int, nodes_view(elems@), fuel as nat),
        (match r {
            Option::Some((_, p)) => p <= s@.len(),
            Option::None => true,
        }),
    decreases fuel,
{
    if fuel == 0 {
        return Option::None;
    }
    let p = skip_ws(s, pos);
    if match_lit(s, p, "<|") {
        proof {
            reveal_strlit("<|");
            assert(s.len() == s@.len());
        }
        let p2 = skip_ws(s, p + 2);
        match p_pipe_elem(s, p2, fuel - 1) {
            Option::Some((e, q)) => {
                let ghost ev = node_view(e);
                let ghost old_elems = nodes_view(elems@);
                let mut elems2 = elems;
                elems2.push(e);
                proof {
                    assert(nodes_view(elems2@) =~= old_elems.push(ev));
                }
                p_pipe_left_rest(s, q, elems2, fuel - 1)
            },
            Option::None => {
                match p_operation(s, p2, fuel - 1) {
                    Option::Some((end, q)) => {
                        match exec_pipe_fold_left(&elems, 0, Option::Some(end)) {
                            Option::Some(n) => {
                                proof {
                                    assert(nodes_view(elems@).skip(0) =~= nodes_view(elems@));
                                }
                                Option::Some((n, q))
                            },
                            Option::None => {
                                proof {
                                    assert(nodes_view(elems@).skip(0) =~= nodes_view(elems@));
                                }
                                Option::None
                            },
                        }
                    },
                    Option::None => {
                        let rr = exec_pipe_fold_left(&elems, 0, Option::None);
                        proof {
                            assert(nodes_view(elems@).skip(0) =~= nodes_view(elems@));
                        }
                        match rr {
                            Option::Some(n) => Option::Some((n, pos)),
                            Option::None => Option::None,
                        }
                    },
                }
            },
        }
    } else {
        let rr = exec_pipe_fold_left(&elems, 0, Option::None);
        proof {
            assert(nodes_view(elems@).skip(0) =~= nodes_view(elems@));
        }
        match rr {
            Option::Some(n) => Option::Some((n, pos)),
            Option::None => Option::None,
        }
    }
}

/// A backward pipe.
fn p_pipe_left(s: &Vec<char>, pos: usize, fuel: u64) -> (r: Option<(Type, usize)>)
    requires
        pos <= s@.len(),
    ensures
        pn_view(r) == sp_pipe_left(s@, pos as int, fuel as nat),
        (match r {
            Option::Some((_, p)) => p <= s@.len(),
            Option::None => true,
        }),
    decreases fuel,
{
    if fuel == 0 {
        return Option::None;
    }
    match p_pipe_elem(s, pos, fuel - 1) {
        Option::Some((e, q)) => {
            let ghost ev = node_view(e);
            let mut elems: Vec<Type> = Vec::new();
            elems.push(e);
            proof {
                assert(nodes_view(elems@) =~= seq![ev]);
            }
            p_pipe_left_rest(s, q, elems, fuel - 1)
        },
        Option::None => Option::None,
    }
}

/// The tail of a forward pipe.
fn p_pipe_right_rest(s: &Vec<char>, pos: usize, last: Option<Type>, fuel: u64) -> (r: Option<
    (Type, usize),
>)
    requires
        pos <= s@.len(),
    ensures
        pn_view(r) == sp_pipe_right_rest(
            s@,
            pos as int,
            crate::interp::opt_view(last),
            fuel as nat,
        ),
        (match r {
            Option::Some((_, p)) => p <= s@.len(),
            Option::None => true,
        }),
    decreases fuel,
{
    if fuel == 0 {
        return Option::None;
    }
    let p = skip_ws(s, pos);
    if match_lit(s, p, "|>") {
        proof {
            reveal_strlit("|>");
            assert(s.len() == s@.len());
        }
        let p2 = skip_ws(s, p + 2);
        match p_pipe_left(s, p2, fuel - 1) {
            Option::Some((e, q)) => {
                let stepped = exec_pipe_step(last, e);
                p_pipe_right_rest(s, q, stepped, fuel - 1)
            },
            Option::None => {
                match last {
                    Option::Some(n) => Option::Some((n, pos)),
                    Option::None => Option::None,
                }
            },
        }
    } else {
        match last {
            Option::Some(n) => Option::Some((n, pos)),
            Option::None => Option::None,
        }
    }
}

/// A pipe expression.
fn p_pipe(s: &Vec<char>, pos: usize, fuel: u64) -> (r: Option<(Type, usize)>)
    requires
        pos <= s@.len(),
    ensures
        pn_view(r) == sp_pipe(s@, pos as int, fuel as nat),
        (match r {
            Option::Some((_, p)) => p <= s@.len(),
            Option::None => true,
        }),
    decreases fuel,
{
    if fuel == 0 {
        return Option::None;
    }
    let mut start_op: Option<Type> = Option::None;
    let mut cur: usize = pos;
    match p_operation(s, pos, fuel - 1) {
        Option::Some((op, q)) => {
            let p = skip_ws(s, q);
            if match_lit(s, p, "|>") {
                proof {
                    reveal_strlit("|>");
                    assert(s.len() == s@.len());
                }
                start_op = Option::Some(op);
                cur = skip_ws(s, p + 2);
            }
        },
        Option::None => {},
    }
    match start_op {
        Option::Some(op) => {
            match p_pipe_left(s, cur, fuel - 1) {
                Option::Some((e, q)) => {
                    let stepped = exec_pipe_step(Option::Some(op), e);
                    p_pipe_right_rest(s, q, stepped, fuel - 1)
                },
                Option::None => Option::None,
            }
        },
        Option::None => {
            match p_pipe_elem(s, pos, fuel - 1) {
                Option::None => Option::None,
                Option::Some((e, q)) => {
                    let p = skip_ws(s, q);
                    if match_lit(s, p, "<|") {
                        let ghost ev = node_view(e);
                        let mut elems: Vec<Type> = Vec::new();
                        elems.push(e);
                        proof {
                            assert(nodes_view(elems@) =~= seq![ev]);
                        }
                        match p_pipe_left_rest(s, q, elems, fuel - 1) {
                            Option::Some((n, q2)) => p_pipe_right_rest(
                                s,
                                q2,
                                Option::Some(n),
                                fuel - 1,
                            ),
                            Option::None => Option::None,
                        }
                    } else if match_lit(s, p, "|>") {
                        let stepped = exec_pipe_step(Option::None, e);
                        p_pipe_right_rest(s, q, stepped, fuel - 1)
                    } else {
                        Option::None
                    }
                },
            }
        },
    }
}

/// A parameter list.
fn p_params(s: &Vec<char>, pos: usize, acc: Vec<String>, fuel: u64) -> (r: Option<
    (Vec<String>, usize),
>)
    requires
        pos <= s@.len(),
    ensures
        pp_view(r) == sp_params(s@, pos as int, strings_view(acc@), fuel as nat),
        (match r {
            Option::Some((_, p)) => p <= s@.len(),
            Option::None => true,
        }),
    decreases fuel,
{
    if fuel == 0 {
        return Option::None;
    }
    let p = skip_ws(s, pos);
    proof {
        reveal_strlit(")");
        reveal_strlit(",");
        assert(s.len() == s@.len());
    }
    if match_lit(s, p, ")") {
        return Option::Some((acc, p + 1));
    }
    match p_symbol(s, p) {
        Option::None => Option::None,
        Option::Some((name, q)) => {
            let q2 = skip_ws(s, q);
            let ghost nv = name@;
            let ghost av = strings_view(acc@);
            let mut acc2 = acc;
            acc2.push(name);
            proof {
                assert(strings_view(acc2@) =~= av.push(nv));
            }
            if match_lit(s, q2, ",") {
                p_params(s, q2 + 1, acc2, fuel - 1)
            } else if match_lit(s, q2, ")") {
                Option::Some((acc2, q2 + 1))
            } else {
                Option::None
            }
        },
    }
}

/// A named or anonymous function.
fn p_function(s: &Vec<char>, pos: usize, fuel: u64) -> (r: Option<(Type, usize)>)
    requires
        pos <= s@.len(),
    ensures
        pn_view(r) == sp_function(s@, pos as int, fuel as nat),
        (match r {
            Option::Some((_, p)) => p <= s@.len(),
            Option::None => true,
        }),
    decreases fuel,
{
    if fuel == 0 {
        return Option::None;
    }
    proof {
        reveal_strlit("fn");
        reveal_strlit("(");
        assert(s.len() == s@.len());
    }
    if match_lit(s, pos, "fn") && pos + 2 < s.len() && (ws_char(s[pos + 2]) || s[pos + 2] == '(') {
        let p = skip_ws(s, pos + 2);
        let (name, p1): (String, usize) = match p_symbol(s, p) {
            Option::Some((n, q)) => (n, skip_ws(s, q)),
            Option::None => (String::new(), p),
        };
        if match_lit(s, p1, "(") {
            let empty_params: Vec<String> = Vec::new();
            proof {
                assert(strings_view(empty_params@) =~= Seq::<Seq<char>>::empty());
            }
            match p_params(s, p1 + 1, empty_params, fuel - 1) {
                Option::None => Option::None,
                Option::Some((params, p2)) => {
                    let p3 = skip_ws(s, p2);
                    match p_block(s, p3, fuel - 1) {
                        Option::Some((body, q)) => {
                            let node = Type::CreateFunction {
                                name,
                                code: body,
                                parameters: params,
                            };
                            proof {
                                reveal_with_fuel(node_view, 2);
                            }
                            Option::Some((node, q))
                        },
                        Option::None => Option::None,
                    }
                },
            }
        } else {
            Option::None
        }
    } else {
        Option::None
    }
}

/// A lambda.
fn p_lambda(s: &Vec<char>, pos: usize, fuel: u64) -> (r: Option<(Type, usize)>)
    requires
        pos <= s@.len(),
    ensures
        pn_view(r) == sp_lambda(s@, pos as int, fuel as nat),
        (match r {
            Option::Some((_, p)) => p <= s@.len(),
            Option::None => true,
        }),
    decreases fuel,
{
    if fuel == 0 {
        return Option::None;
    }
    proof {
        reveal_strlit("(");
        reveal_strlit("=>");
        assert(s.len() == s@.len());
    }
    if match_lit(s, pos, "(") {
        let empty_params: Vec<String> = Vec::new();
        proof {
            assert(strings_view(empty_params@) =~= Seq::<Seq<char>>::empty());
        }
        match p_params(s, pos + 1, empty_params, fuel - 1) {
            Option::None => Option::None,
            Option::Some((params, p2)) => {
                let p3 = skip_ws(s, p2);
                if match_lit(s, p3, "=>") {
                    let p4 = skip_ws(s, p3 + 2);
                    match p_block(s, p4, fuel - 1) {
                        Option::Some((body, q)) => {
                            let node = Type::CreateFunction {
                                name: String::new(),
                                code: body,
                                parameters: params,
                            };
                            proof {
                                reveal_with_fuel(node_view, 2);
                            }
                            Option::Some((node, q))
                        },
                        Option::None => Option::None,
                    }
                } else {
                    Option::None
                }
            },
        }
    } else {
        Option::None
    }
}

/// An `if` form.
fn p_if(s: &Vec<char>, pos: usize, fuel: u64) -> (r: Option<(Type, usize)>)
    requires
        pos <= s@.len(),
    ensures
        pn_view(r) == sp_if(s@, pos as int, fuel as nat),
        (match r {
            Option::Some((_, p)) => p <= s@.len(),
            Option::None => true,
        }),
    decreases fuel,
{
    if fuel == 0 {
        return Option::None;
    }
    proof {
        reveal_strlit("if");
        reveal_strlit("(");
        reveal_strlit(")");
        reveal_strlit("else");
        assert(s.len() == s@.len());
    }
    if !match_lit(s, pos, "if") {
        return Option::None;
    }
    let p = skip_ws(s, pos + 2);
    let p1 = if match_lit(s, p, "(") {
        skip_ws(s, p + 1)
    } else {
        p
    };
    match p_operation(s, p1, fuel - 1) {
        Option::None => Option::None,
        Option::Some((cond, q)) => {
            let q1 = skip_ws(s, q);
            let q2 = if match_lit(s, q1, ")") {
                skip_ws(s, q1 + 1)
            } else {
                q1
            };
            match p_block(s, q2, fuel - 1) {
                Option::None => Option::None,
                Option::Some((then, q3)) => {
                    let q4 = skip_ws(s, q3);
                    if match_lit(s, q4, "else") {
                        let q5 = skip_ws(s, q4 + 4);
                        match p_block(s, q5, fuel - 1) {
                            Option::Some((other, q6)) => {
                                let node = Type::Conditional {
                                    condition: Box::new(cond),
                                    then,
                                    otherwise: Option::Some(other),
                                };
                                proof {
                                    reveal_with_fuel(node_view, 2);
                                }
                                Option::Some((node, q6))
                            },
                            Option::None => {
                                match p_if(s, q5, fuel - 1) {
                                    Option::Some((elif, q6)) => {
                                        let ghost ev = node_view(elif);
                                        let mut other: Vec<Type> = Vec::new();
                                        other.push(elif);
                                        proof {
                                            assert(nodes_view(other@) =~= seq![ev]);
                                        }
                                        let node = Type::Conditional {
                                            condition: Box::new(cond),
                                            then,
                                            otherwise: Option::Some(other),
                                        };
                                        proof {
                                            reveal_with_fuel(node_view, 2);
                                        }
                                        Option::Some((node, q6))
                                    },
                                    Option::None => {
                                        let node = Type::Conditional {
                                            condition: Box::new(cond),
                                            then,
                                            otherwise: Option::None,
                                        };
                                        proof {
                                            reveal_with_fuel(node_view, 2);
                                        }
                                        Option::Some((node, q3))
                                    },
                                }
                            },
                        }
                    } else {
                        let node = Type::Conditional {
                            condition: Box::new(cond),
                            then,
                            otherwise: Option::None,
                        };
                        proof {
                            reveal_with_fuel(node_view, 2);
                        }
                        Option::Some((node, q3))
                    }
                },
            }
        },
    }
}

/// A `while` form.
fn p_while(s: &Vec<char>, pos: usize, fuel: u64) -> (r: Option<(Type, usize)>)
    requires
        pos <= s@.len(),
    ensures
        pn_view(r) == sp_while(s@, pos as int, fuel as nat),
        (match r {
            Option::Some((_, p)) => p <= s@.len(),
            Option::None => true,
        }),
    decreases fuel,
{
    if fuel == 0 {
        return Option::None;
    }
    proof {
        reveal_strlit("while");
        reveal_strlit("(");
        reveal_strlit(")");
        assert(s.len() == s@.len());
    }
    if !match_lit(s, pos, "while") {
        return Option::None;
    }
    let p = skip_ws(s, pos + 5);
    let p1 = if match_lit(s, p, "(") {
        skip_ws(s, p + 1)
    } else {
        p
    };
    match p_operation(s, p1, fuel - 1) {
        Option::None => Option::None,
        Option::Some((cond, q)) => {
            let q1 = skip_ws(s, q);
            let q2 = if match_lit(s, q1, ")") {
                skip_ws(s, q1 + 1)
            } else {
                q1
            };
            match p_block(s, q2, fuel - 1) {
                Option::None => Option::None,
                Option::Some((body, q3)) => {
                    let node = Type::While { condition: Box::new(cond), code: body };
                    proof {
                        reveal_with_fuel(node_view, 2);
                    }
                    Option::Some((node, q3))
                },
            }
        },
    }
}

/// One statement.
fn p_stmt(s: &Vec<char>, pos: usize, fuel: u64) -> (r: Option<(Type, usize)>)
    requires
        pos <= s@.len(),
    ensures
        pn_view(r) == sp_stmt(s@, pos as int, fuel as nat),
        (match r {
            Option::Some((_, p)) => p <= s@.len(),
            Option::None => true,
        }),
    decreases fuel,
{
    if fuel == 0 {
        return Option::None;
    }
    if let Option::Some(r) = p_comment(s, pos) {
        return Option::Some(r);
    }
    if let Option::Some(r) = p_declaration(s, pos, fuel - 1) {
        return Option::Some(r);
    }
    if let Option::Some(r) = p_assignment(s, pos, fuel - 1) {
        return Option::Some(r);
    }
    if let Option::Some(r) = p_pipe(s, pos, fuel - 1) {
        return Option::Some(r);
    }
    if let Option::Some(r) = p_lambda(s, pos, fuel - 1) {
        return Option::Some(r);
    }
    if let Option::Some(r) = p_function(s, pos, fuel - 1) {
        return Option::Some(r);
    }
    if let Option::Some(r) = p_chain_call(s, pos, fuel - 1) {
        return Option::Some(r);
    }
    if let Option::Some(r) = p_if(s, pos, fuel - 1) {
        return Option::Some(r);
    }
    if let Option::Some(r) = p_while(s, pos, fuel - 1) {
        return Option::Some(r);
    }
    p_operation(s, pos, fuel - 1)
}

/// The statements of a block or program.
fn p_stmts(s: &Vec<char>, pos: usize, acc: Vec<Type>, fuel: u64) -> (r: (Vec<Type>, usize))
    requires
        pos <= s@.len(),
    ensures
        ({
            let (se, sp) = sp_stmts(s@, pos as int, nodes_view(acc@), fuel as nat);
            nodes_view(r.0@) == se && r.1 as int == sp
        }),
        r.1 <= s@.len(),
    decreases fuel,
{
    if fuel == 0 {
        return (acc, pos);
    }
    let p = skip_ws(s, pos);
    match p_stmt(s, p, fuel - 1) {
        Option::None => (acc, p),
        Option::Some((n, q)) => {
            let q2 = skip_ws(s, q);
            proof {
                reveal_strlit(";");
                assert(s.len() == s@.len());
            }
            let q3 = if match_lit(s, q2, ";") {
                q2 + 1
            } else {
                q2
            };
            let ghost nv = node_view(n);
            let ghost av = nodes_view(acc@);
            let mut acc2 = acc;
            acc2.push(n);
            proof {
                assert(nodes_view(acc2@) =~= av.push(nv));
            }
            p_stmts(s, q3, acc2, fuel - 1)
        },
    }
}

/// A braced block.
fn p_block(s: &Vec<char>, pos: usize, fuel: u64) -> (r: Option<(Vec<Type>, usize)>)
    requires
        pos <= s@.len(),
    ensures
        pv_view(r) == sp_block(s@, pos as int, fuel as nat),
        (match r {
            Option::Some((_, p)) => p <= s@.len(),
            Option::None => true,
        }),
    decreases fuel,
{
    if fuel == 0 {
        return Option::None;
    }
    proof {
        reveal_strlit("{");
        reveal_strlit("}");
        assert(s.len() == s@.len());
    }
    if match_lit(s, pos, "{") {
        let empty_acc: Vec<Type> = Vec::new();
        proof {
            assert(nodes_view(empty_acc@) =~= Seq::<TypeM>::empty());
        }
        let (stmts, p) = p_stmts(s, pos + 1, empty_acc, fuel - 1);
        if match_lit(s, p, "}") {
            Option::Some((stmts, p + 1))
        } else {
            Option::None
        }
    } else {
        Option::None
    }
}

/// The parse budget for an input of `n` characters.
fn exec_parse_budget(n: usize) -> (r: u64)
    ensures
        r as nat == parse_budget(n as nat),
{
    if (n as u64) > 0xffff_ffff_ffffu64 {
        0xffff_ffff_ffff_ffffu64
    } else {
        (n as u64 + 2) * 64
    }
}

/// Parses a whole program into its statement list, or reports the position
/// at which the input stopped matching the grammar.
#[allow(non_snake_case)]
pub fn ParseString(code: &str) -> (r: Result<Vec<Type>, Error>)
    ensures
        (match (r, sp_program(code@)) {
            (Result::Ok(v), Result::Ok(m)) => nodes_view(v@) == m,
            (Result::Err(a), Result::Err(b)) => a == b,
            _ => false,
        }),
{
    let chars = crate::render::chars_of(code);
    let budget = exec_parse_budget(chars.len());
    let empty_acc: Vec<Type> = Vec::new();
    proof {
        assert(nodes_view(empty_acc@) =~= Seq::<TypeM>::empty());
    }
    let (stmts, p) = p_stmts(&chars, 0, empty_acc, budget);
    if p == chars.len() {
        Result::Ok(stmts)
    } else {
        Result::Err(Error::SyntaxError(p))
    }
}


/// Law: a forward pipe threads the value so far as the first argument of the
/// next call stage.  Folding stages `f(..)` then `g(..)` from a start value
/// `a` yields the tree of `g(f(a, ..), ..)`, so `a |> f |> g` denotes
/// `g(f(a))` and evaluates as that call tree does.
pub proof fn lemma_pipe_forward(
    a: TypeM,
    fc: Seq<char>,
    fargs: Seq<TypeM>,
    gc: Seq<char>,
    gargs: Seq<TypeM>,
)
    ensures
        ({
            let f_applied = TypeM::Call { callee: fc, arguments: seq![a] + fargs };
            pipe_step_right(
                pipe_step_right(Option::Some(a), TypeM::Call { callee: fc, arguments: fargs }),
                TypeM::Call { callee: gc, arguments: gargs },
            ) == Option::Some(
                TypeM::Call { callee: gc, arguments: seq![f_applied] + gargs },
            )
        }),
{
}

/// Law: a backward pipe threads the terminal value as the last argument of
/// the call to its left, folding right to left.  Folding stages `f(..)` and
/// `g(..)` around a terminal value `a` yields the tree of `f(.., g(.., a))`,
/// so `f <| g <| a` denotes `f(g(a))` and evaluates as that call tree does.
pub proof fn lemma_pipe_backward(
    a: TypeM,
    fc: Seq<char>,
    fargs: Seq<TypeM>,
    gc: Seq<char>,
    gargs: Seq<TypeM>,
)
    ensures
        ({
            let f = TypeM::Call { callee: fc, arguments: fargs };
            let g = TypeM::Call { callee: gc, arguments: gargs };
            pipe_fold_left(seq![f, g], Option::Some(a)) == Option::Some(
                TypeM::Call {
                    callee: fc,
                    arguments: fargs.push(TypeM::Call { callee: gc, arguments: gargs.push(a) }),
                },
            )
        }),
{
    let f = TypeM::Call { callee: fc, arguments: fargs };
    let g = TypeM::Call { callee: gc, arguments: gargs };
    reveal_with_fuel(pipe_fold_left, 3);
    assert(seq![f, g].drop_first() =~= seq![g]);
    assert(seq![g].drop_first() =~= Seq::<TypeM>::empty());
    assert(pipe_fold_left(seq![g].drop_first(), Option::Some(a)) == Option::Some(a));
    assert(pipe_fold_left(seq![g], Option::Some(a)) == Option::Some(
        TypeM::Call { callee: gc, arguments: gargs.push(a) },
    ));
    assert(seq![f, g][0] == f);
}

} // verus!\n