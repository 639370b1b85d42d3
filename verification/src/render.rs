//! Rendering of runtime values to text: what `print` writes, plus the small
//! indentation/bracket helpers the debug pretty-printer builds on.

use vstd::prelude::*;

use colored::Colorize;

use crate::ast::{node_view, Type, TypeM};

verus! {

/// The decimal digit character for `d` in `0..10`.
pub open spec fn dec_digit(d: int) -> char {
    if d == 0 {
        '0'
    } else if d == 1 {
        '1'
    } else if d == 2 {
        '2'
    } else if d == 3 {
        '3'
    } else if d == 4 {
        '4'
    } else if d == 5 {
        '5'
    } else if d == 6 {
        '6'
    } else if d == 7 {
        '7'
    } else if d == 8 {
        '8'
    } else {
        '9'
    }
}

/// Decimal digits of a non-negative number, most significant first.
pub open spec fn dec_str(n: nat) -> Seq<char>
    decreases n,
{
    if n < 10 {
        seq![dec_digit(n as int)]
    } else {
        dec_str(n / 10).push(dec_digit((n % 10) as int))
    }
}

/// Decimal rendering of an integer, with a leading minus for negatives.
pub open spec fn int_str(n: int) -> Seq<char> {
    if n < 0 {
        seq!['-'] + dec_str((-n) as nat)
    } else {
        dec_str(n as nat)
    }
}

/// Text of a boolean value.
pub open spec fn bool_str(b: bool) -> Seq<char> {
    if b {
        "true"@
    } else {
        "false"@
    }
}

/// The text a value renders to: numbers in decimal, strings and symbols as
/// their own text, booleans as `true`/`false`; function values and other
/// node shapes render as fixed placeholders.
pub open spec fn render(v: TypeM) -> Seq<char> {
    match v {
        TypeM::Number(n) => int_str(n),
        TypeM::Bool(b) => bool_str(b),
        TypeM::Symbol(s) => s,
        TypeM::Str(s) => s,
        TypeM::Function(_) => "<function>"@,
        _ => "<node>"@,
    }
}

/// Relies on `core::iter::Iterator::collect` for `String`: collecting chars
/// yields the string of exactly those chars in order.
#[verifier::external_body]
pub fn string_from_chars(v: &Vec<char>) -> (r: String)
    ensures
        r@ == v@,
{
    v.iter().collect()
}

/// The characters of a string, in order.
pub fn chars_of(s: &str) -> (r: Vec<char>)
    ensures
        r@ == s@,
{
    let n = s.unicode_len();
    let mut v: Vec<char> = Vec::new();
    for i in 0..n
        invariant
            n == s@.len(),
            v@.len() == i,
            forall|j: int| 0 <= j < i ==> v@[j] == s@[j],
    {
        v.push(s.get_char(i));
    }
    proof {
        assert(v@ =~= s@);
    }
    v
}

/// The digit character of `d`.
fn digit_char(d: u64) -> (c: char)
    requires
        d < 10,
    ensures
        c == dec_digit(d as int),
{
    if d == 0 {
        '0'
    } else if d == 1 {
        '1'
    } else if d == 2 {
        '2'
    } else if d == 3 {
        '3'
    } else if d == 4 {
        '4'
    } else if d == 5 {
        '5'
    } else if d == 6 {
        '6'
    } else if d == 7 {
        '7'
    } else if d == 8 {
        '8'
    } else {
        '9'
    }
}

/// Appends the decimal digits of `n` to `out`.
fn push_dec(n: u64, out: &mut Vec<char>)
    ensures
        final(out)@ == old(out)@ + dec_str(n as nat),
    decreases n,
{
    if n < 10 {
        out.push(digit_char(n));
        proof {
            assert(out@ =~= old(out)@ + dec_str(n as nat));
        }
    } else {
        push_dec(n / 10, out);
        out.push(digit_char(n % 10));
        proof {
            assert(out@ =~= old(out)@ + dec_str(n as nat));
        }
    }
}

/// Renders an integer in decimal.
pub fn int_to_string(n: i64) -> (r: String)
    ensures
        r@ == int_str(n as int),
{
    let mut chars: Vec<char> = Vec::new();
    if n < 0 {
        chars.push('-');
        let mag: u64 = if n == i64::MIN {
            9223372036854775808u64
        } else {
            (-n) as u64
        };
        proof {
            assert(mag as nat == (-(n as int)) as nat);
        }
        push_dec(mag, &mut chars);
        proof {
            assert(chars@ =~= int_str(n as int));
        }
    } else {
        push_dec(n as u64, &mut chars);
        proof {
            assert(chars@ =~= int_str(n as int));
        }
    }
    string_from_chars(&chars)
}

impl Type {
    /// Renders a value to the text `print` would write for it.
    #[allow(non_snake_case)]
    pub fn toString(&self) -> (r: String)
        ensures
            r@ == render(node_view(*self)),
    {
        match self {
            Type::Number(n) => int_to_string(*n),
            Type::Bool(b) => {
                if *b {
                    String::from_str("true")
                } else {
                    String::from_str("false")
                }
            },
            Type::Symbol(s) => s.clone(),
            Type::Str(s) => s.clone(),
            Type::Function(_) => String::from_str("<function>"),
            _ => String::from_str("<node>"),
        }
    }
}

/// The indentation prefix for a pretty-printing depth: four spaces per level.
pub fn sep(depth: usize) -> (r: String)
    requires
        depth <= usize::MAX / 4,
    ensures
        r@.len() == 4 * depth,
        forall|i: int| 0 <= i < r@.len() ==> r@[i] == ' ',
{
    let n = 4 * depth;
    let mut chars: Vec<char> = Vec::new();
    for i in 0..n
        invariant
            chars@.len() == i,
            forall|j: int| 0 <= j < i ==> chars@[j] == ' ',
    {
        chars.push(' ');
    }
    string_from_chars(&chars)
}

/// Relies on `colored::Colorize::magenta` and `ColoredString`'s `Display`:
/// the rendering is the input text, either unchanged (colours disabled) or
/// wrapped in ANSI style codes, so it is never shorter than the input.
#[verifier::external_body]
fn paint_magenta(s: &str) -> (r: String)
    ensures
        r@.len() >= s@.len(),
{
    s.magenta().to_string()
}

/// Relies on `colored::Colorize::cyan` and `ColoredString`'s `Display`:
/// the rendering is the input text, either unchanged or wrapped in ANSI
/// style codes, so it is never shorter than the input.
#[verifier::external_body]
fn paint_cyan(s: &str) -> (r: String)
    ensures
        r@.len() >= s@.len(),
{
    s.cyan().to_string()
}

/// Relies on `colored::Colorize::yellow` and `ColoredString`'s `Display`:
/// the rendering is the input text, either unchanged or wrapped in ANSI
/// style codes, so it is never shorter than the input.
#[verifier::external_body]
fn paint_yellow(s: &str) -> (r: String)
    ensures
        r@.len() >= s@.len(),
{
    s.yellow().to_string()
}

/// Colours a bracket for the pretty-printer, cycling the colour with the
/// nesting depth.  What the colour codes look like depends on the host
/// terminal, so only the text growing is promised.
pub fn bracket(br: &str, depth: usize) -> (r: String)
    requires
        depth < usize::MAX,
    ensures
        r@.len() >= br@.len(),
{
    if (depth + 1) % 2 == 0 {
        paint_magenta(br)
    } else if (depth + 1) % 3 == 0 {
        paint_cyan(br)
    } else {
        paint_yellow(br)
    }
}

} // verus!
