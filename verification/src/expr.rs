//! The expressions of tests and substitutions, and their parser.
//!
//! From the loosest to the tightest: `||`; `&&`; `== != < <= > >=`; `+ -`;
//! `* /`; the signs `!` and `-`; then a number, a text in quotes, `true`,
//! `false`, `null`, a name, or an expression in brackets, each with `.name`
//! and `[index]` after it as often as wanted. A number may have a fraction.

use crate::decimal::{all_digits, digits_value, parse_digits};
use crate::text::{byte_is_digit, push_bytes, 
    byte_is_alpha, bytes_eq, copy_range, is_alpha, is_digit, lemma_run_end, run_end, scan_run,
    skip_blanks, skip_blanks_from, ByteClass,
};
use vstd::prelude::*;
use vstd::string::StringSliceAdditionalSpecFns;

verus! {

/// An operator with one operand.
#[derive(Clone, Copy, Debug, PartialEq, Eq)]
pub enum UnaryOp {
    Not,
    Neg,
}

/// An operator with two operands.
#[derive(Clone, Copy, Debug, PartialEq, Eq)]
pub enum BinaryOp {
    Or,
    And,
    Equal,
    NotEqual,
    Less,
    LessEqual,
    Greater,
    GreaterEqual,
    Add,
    Sub,
    Mul,
    Div,
}

/// Why an expression has no value.
#[derive(Clone, Copy, Debug, PartialEq, Eq)]
pub enum EvalError {
    /// The text is no expression; the index is that of the byte where it stops being one.
    Syntax(usize),
    /// The number that starts at the index is none that stands here: it is too
    /// long to be held, or it has a fraction and is not compared with a number.
    UnsupportedNumber(usize),
    /// An operator was given operands of kinds that it is not defined on.
    TypeMismatch,
    /// A division by zero, or an integer result out of range.
    ArithmeticError,
}

/// An expression in evaluable form.
#[derive(Debug)]
pub enum Expr {
    Nil,
    Boolean(bool),
    Number(u64),
    /// A number with a fraction: `mantissa / 10^scale`, written at index `pos`.
    Decimal { mantissa: u64, scale: u8, pos: usize },
    Str(Vec<u8>),
    Var(Vec<u8>),
    Field(Box<Expr>, Vec<u8>),
    Index(Box<Expr>, Box<Expr>),
    Unary(UnaryOp, Box<Expr>),
    Binary(BinaryOp, Box<Expr>, Box<Expr>),
}

/// What an expression stands for.
pub enum ExprView {
    Nil,
    Boolean(bool),
    Number(u64),
    Decimal { mantissa: u64, scale: u8, pos: usize },
    Str(Seq<u8>),
    Var(Seq<u8>),
    Field(Box<ExprView>, Seq<u8>),
    Index(Box<ExprView>, Box<ExprView>),
    Unary(UnaryOp, Box<ExprView>),
    Binary(BinaryOp, Box<ExprView>, Box<ExprView>),
}

/// What an expression stands for.
pub open spec fn expr_view(e: Expr) -> ExprView
    decreases e,
{
    match e {
        Expr::Nil => ExprView::Nil,
        Expr::Boolean(b) => ExprView::Boolean(b),
        Expr::Number(n) => ExprView::Number(n),
        Expr::Decimal { mantissa, scale, pos } => ExprView::Decimal { mantissa, scale, pos },
        Expr::Str(s) => ExprView::Str(s@),
        Expr::Var(s) => ExprView::Var(s@),
        Expr::Field(b, name) => ExprView::Field(Box::new(expr_view(*b)), name@),
        Expr::Index(b, i) => ExprView::Index(Box::new(expr_view(*b)), Box::new(expr_view(*i))),
        Expr::Unary(op, a) => ExprView::Unary(op, Box::new(expr_view(*a))),
        Expr::Binary(op, a, b) => ExprView::Binary(
            op,
            Box::new(expr_view(*a)),
            Box::new(expr_view(*b)),
        ),
    }
}

impl View for Expr {
    type V = ExprView;

    open spec fn view(&self) -> ExprView {
        expr_view(*self)
    }
}

/// What parsing one part of an expression gives: the part and the index after it.
pub type Parsed = Result<(ExprView, int), EvalError>;

/// Whether the byte `b` stands at index `q`.
pub open spec fn byte_at(s: Seq<u8>, q: int, b: u8) -> bool {
    0 <= q < s.len() && s[q] == b
}

/// The operator of the given level of precedence that stands at index `q`, with
/// its length. The levels, from the loosest: `||`; `&&`; the comparisons; `+ -`; `* /`.
pub open spec fn op_at(s: Seq<u8>, q: int, level: int) -> Option<(BinaryOp, int)> {
    if level == 0 {
        if byte_at(s, q, 0x7c) && byte_at(s, q + 1, 0x7c) {
            Some((BinaryOp::Or, 2))
        } else {
            None
        }
    } else if level == 1 {
        if byte_at(s, q, 0x26) && byte_at(s, q + 1, 0x26) {
            Some((BinaryOp::And, 2))
        } else {
            None
        }
    } else if level == 2 {
        if byte_at(s, q, 0x3d) && byte_at(s, q + 1, 0x3d) {
            Some((BinaryOp::Equal, 2))
        } else if byte_at(s, q, 0x21) && byte_at(s, q + 1, 0x3d) {
            Some((BinaryOp::NotEqual, 2))
        } else if byte_at(s, q, 0x3c) && byte_at(s, q + 1, 0x3d) {
            Some((BinaryOp::LessEqual, 2))
        } else if byte_at(s, q, 0x3e) && byte_at(s, q + 1, 0x3d) {
            Some((BinaryOp::GreaterEqual, 2))
        } else if byte_at(s, q, 0x3c) {
            Some((BinaryOp::Less, 1))
        } else if byte_at(s, q, 0x3e) {
            Some((BinaryOp::Greater, 1))
        } else {
            None
        }
    } else if level == 3 {
        if byte_at(s, q, 0x2b) {
            Some((BinaryOp::Add, 1))
        } else if byte_at(s, q, 0x2d) {
            Some((BinaryOp::Sub, 1))
        } else {
            None
        }
    } else if level == 4 {
        if byte_at(s, q, 0x2a) {
            Some((BinaryOp::Mul, 1))
        } else if byte_at(s, q, 0x2f) {
            Some((BinaryOp::Div, 1))
        } else {
            None
        }
    } else {
        None
    }
}

/// The place of a level of precedence in the order in which the parts of the
/// grammar call one another.
pub open spec fn rank(level: int) -> int {
    if 0 <= level < 5 {
        10 - level
    } else {
        5
    }
}

/// What a name stands for: one of the words `true`, `false`, `null` and `nil`,
/// or a variable.
pub open spec fn named(name: Seq<u8>) -> ExprView {
    if name == "true".spec_bytes() {
        ExprView::Boolean(true)
    } else if name == "false".spec_bytes() {
        ExprView::Boolean(false)
    } else if name == "null".spec_bytes() || name == "nil".spec_bytes() {
        ExprView::Nil
    } else {
        ExprView::Var(name)
    }
}

/// A literal, a name or a bracketed expression that starts at or after `pos`.
///
/// A number is a run of digits, with or without a point and a run of digits for
/// its fraction; letters that follow it at once are a suffix that is left out.
/// A text stands between two quotes of one kind, single or double.
pub open spec fn parse_primary(s: Seq<u8>, pos: int) -> Parsed
    decreases s.len() - pos, 1int,
{
    let q = skip_blanks(s, pos);
    if !(0 <= pos <= q < s.len()) {
        Err(EvalError::Syntax(s.len() as usize))
    } else if s[q] == 0x28 {
        match parse_level(s, q + 1, 0) {
            Ok((e, p)) => {
                let r = skip_blanks(s, p);
                if byte_at(s, r, 0x29) {
                    Ok((e, r + 1))
                } else {
                    Err(EvalError::Syntax(r as usize))
                }
            },
            Err(e) => Err(e),
        }
    } else if s[q] == 0x27 || s[q] == 0x22 {
        let end = run_end(s, q + 1, ByteClass::Except(s[q]));
        if q < end < s.len() {
            Ok((ExprView::Str(s.subrange(q + 1, end)), end + 1))
        } else {
            Err(EvalError::Syntax(q as usize))
        }
    } else if is_digit(s[q]) {
        let end = run_end(s, q, ByteClass::Digit);
        if byte_at(s, end, 0x2e) && end + 1 < s.len() && is_digit(s[end + 1]) {
            let frac_end = run_end(s, end + 1, ByteClass::Digit);
            let digits = s.subrange(q, end) + s.subrange(end + 1, frac_end);
            if !(q < end && end + 1 < frac_end <= s.len()) || frac_end - end - 1 > 18
                || digits_value(digits) > u64::MAX {
                Err(EvalError::UnsupportedNumber(q as usize))
            } else {
                Ok(
                    (
                        ExprView::Decimal {
                            mantissa: digits_value(digits) as u64,
                            scale: (frac_end - end - 1) as u8,
                            pos: q as usize,
                        },
                        run_end(s, frac_end, ByteClass::Alpha),
                    ),
                )
            }
        } else if !(q < end <= s.len()) || digits_value(s.subrange(q, end)) > u64::MAX {
            Err(EvalError::UnsupportedNumber(q as usize))
        } else {
            Ok(
                (
                    ExprView::Number(digits_value(s.subrange(q, end)) as u64),
                    run_end(s, end, ByteClass::Alpha),
                ),
            )
        }
    } else if is_alpha(s[q]) || s[q] == 0x5f {
        let end = run_end(s, q, ByteClass::Word);
        if q < end <= s.len() {
            Ok((named(s.subrange(q, end)), end))
        } else {
            Err(EvalError::Syntax(q as usize))
        }
    } else {
        Err(EvalError::Syntax(q as usize))
    }
}

/// The accesses that follow `base` at `pos`: `.name` for an entry, `[index]` for
/// an element or an entry.
pub open spec fn parse_accesses(s: Seq<u8>, pos: int, base: ExprView) -> Parsed
    decreases s.len() - pos, 0int,
{
    if byte_at(s, pos, 0x2e) {
        let end = run_end(s, pos + 1, ByteClass::Word);
        if pos + 1 < end <= s.len() {
            parse_accesses(s, end, ExprView::Field(Box::new(base), s.subrange(pos + 1, end)))
        } else {
            Err(EvalError::Syntax((pos + 1) as usize))
        }
    } else if byte_at(s, pos, 0x5b) {
        match parse_level(s, pos + 1, 0) {
            Ok((index, p)) => {
                let r = skip_blanks(s, p);
                if byte_at(s, r, 0x5d) && pos < r {
                    parse_accesses(s, r + 1, ExprView::Index(Box::new(base), Box::new(index)))
                } else {
                    Err(EvalError::Syntax(r as usize))
                }
            },
            Err(e) => Err(e),
        }
    } else {
        Ok((base, pos))
    }
}

/// A primary with the accesses that follow it.
pub open spec fn parse_accessed(s: Seq<u8>, pos: int) -> Parsed
    decreases s.len() - pos, 2int,
{
    match parse_primary(s, pos) {
        Ok((base, p)) => if pos < p <= s.len() {
            parse_accesses(s, p, base)
        } else {
            Err(EvalError::Syntax(pos as usize))
        },
        Err(e) => Err(e),
    }
}

/// An accessed primary with the signs `!` and `-` before it.
pub open spec fn parse_unary(s: Seq<u8>, pos: int) -> Parsed
    decreases s.len() - pos, 3int,
{
    let q = skip_blanks(s, pos);
    if 0 <= pos <= q && byte_at(s, q, 0x21) && !byte_at(s, q + 1, 0x3d) {
        match parse_unary(s, q + 1) {
            Ok((e, p)) => Ok((ExprView::Unary(UnaryOp::Not, Box::new(e)), p)),
            Err(e) => Err(e),
        }
    } else if 0 <= pos <= q && byte_at(s, q, 0x2d) {
        match parse_unary(s, q + 1) {
            Ok((e, p)) => Ok((ExprView::Unary(UnaryOp::Neg, Box::new(e)), p)),
            Err(e) => Err(e),
        }
    } else {
        parse_accessed(s, pos)
    }
}

/// An expression of the given level of precedence or a tighter one.
pub open spec fn parse_level(s: Seq<u8>, pos: int, level: int) -> Parsed
    decreases s.len() - pos, rank(level),
{
    if 0 <= level < 5 {
        match parse_level(s, pos, level + 1) {
            Ok((lhs, p)) => if pos < p <= s.len() {
                parse_operands(s, p, level, lhs)
            } else {
                Err(EvalError::Syntax(pos as usize))
            },
            Err(e) => Err(e),
        }
    } else {
        parse_unary(s, pos)
    }
}

/// The operators of one level that follow `lhs` at `pos`, each with its right
/// operand; they group to the left.
pub open spec fn parse_operands(s: Seq<u8>, pos: int, level: int, lhs: ExprView) -> Parsed
    decreases s.len() - pos, 0int,
{
    let q = skip_blanks(s, pos);
    match op_at(s, q, level) {
        Some((op, n)) => if 0 <= pos <= q && q + n <= s.len() {
            match parse_level(s, q + n, level + 1) {
                Ok((rhs, p)) => if q + n < p <= s.len() {
                    parse_operands(s, p, level, ExprView::Binary(op, Box::new(lhs), Box::new(rhs)))
                } else {
                    Err(EvalError::Syntax(q as usize))
                },
                Err(e) => Err(e),
            }
        } else {
            Err(EvalError::Syntax(pos as usize))
        },
        None => Ok((lhs, pos)),
    }
}

/// The expression that the whole text is, blanks around it apart.
pub open spec fn parse_expr(s: Seq<u8>) -> Result<ExprView, EvalError> {
    match parse_level(s, 0, 0) {
        Ok((e, p)) => {
            let r = skip_blanks(s, p);
            if r >= s.len() {
                Ok(e)
            } else {
                Err(EvalError::Syntax(r as usize))
            }
        },
        Err(e) => Err(e),
    }
}

/// Whether an executable result is what the grammar gives, and ends after `pos`.
pub open spec fn agrees(r: Result<(Expr, usize), EvalError>, spec: Parsed, pos: int, len: int) -> bool {
    match r {
        Ok((e, p)) => spec == Ok::<(ExprView, int), EvalError>((e@, p as int)) && pos < p <= len,
        Err(x) => spec == Err::<(ExprView, int), EvalError>(x),
    }
}

fn has_byte(s: &[u8], q: usize, b: u8) -> (r: bool)
    ensures
        r == byte_at(s@, q as int, b),
{
    q < s.len() && s[q] == b
}

fn find_op(s: &[u8], q: usize, level: u8) -> (r: Option<(BinaryOp, usize)>)
    requires
        q <= s.len(),
    ensures
        match r {
            Some((op, n)) => op_at(s@, q as int, level as int) == Some((op, n as int)) && 1 <= n
                && q + n <= s.len(),
            None => op_at(s@, q as int, level as int) is None,
        },
{
    if q >= s.len() {
        return None;
    }
    let a = s[q];
    let two = q + 1 < s.len();
    if level == 0 {
        if a == 0x7c && two && s[q + 1] == 0x7c {
            Some((BinaryOp::Or, 2))
        } else {
            None
        }
    } else if level == 1 {
        if a == 0x26 && two && s[q + 1] == 0x26 {
            Some((BinaryOp::And, 2))
        } else {
            None
        }
    } else if level == 2 {
        if a == 0x3d && two && s[q + 1] == 0x3d {
            Some((BinaryOp::Equal, 2))
        } else if a == 0x21 && two && s[q + 1] == 0x3d {
            Some((BinaryOp::NotEqual, 2))
        } else if a == 0x3c && two && s[q + 1] == 0x3d {
            Some((BinaryOp::LessEqual, 2))
        } else if a == 0x3e && two && s[q + 1] == 0x3d {
            Some((BinaryOp::GreaterEqual, 2))
        } else if a == 0x3c {
            Some((BinaryOp::Less, 1))
        } else if a == 0x3e {
            Some((BinaryOp::Greater, 1))
        } else {
            None
        }
    } else if level == 3 {
        if a == 0x2b {
            Some((BinaryOp::Add, 1))
        } else if a == 0x2d {
            Some((BinaryOp::Sub, 1))
        } else {
            None
        }
    } else if level == 4 {
        if a == 0x2a {
            Some((BinaryOp::Mul, 1))
        } else if a == 0x2f {
            Some((BinaryOp::Div, 1))
        } else {
            None
        }
    } else {
        None
    }
}

fn name_expr(name: Vec<u8>) -> (r: Expr)
    ensures
        r@ == named(name@),
{
    if bytes_eq(name.as_slice(), "true".as_bytes()) {
        Expr::Boolean(true)
    } else if bytes_eq(name.as_slice(), "false".as_bytes()) {
        Expr::Boolean(false)
    } else if bytes_eq(name.as_slice(), "null".as_bytes()) || bytes_eq(
        name.as_slice(),
        "nil".as_bytes(),
    ) {
        Expr::Nil
    } else {
        Expr::Var(name)
    }
}

fn primary(s: &[u8], pos: usize) -> (r: Result<(Expr, usize), EvalError>)
    requires
        pos <= s.len(),
    ensures
        agrees(r, parse_primary(s@, pos as int), pos as int, s@.len() as int),
    decreases s.len() - pos, 1int,
{
    let q = skip_blanks_from(s, pos);
    if q >= s.len() {
        return Err(EvalError::Syntax(s.len()));
    }
    let b = s[q];
    if b == 0x28 {
        match level(s, q + 1, 0) {
            Ok((e, p)) => {
                let r = skip_blanks_from(s, p);
                if has_byte(s, r, 0x29) {
                    Ok((e, r + 1))
                } else {
                    Err(EvalError::Syntax(r))
                }
            },
            Err(e) => Err(e),
        }
    } else if b == 0x27 || b == 0x22 {
        let end = scan_run(s, q + 1, ByteClass::Except(b));
        if end < s.len() {
            Ok((Expr::Str(copy_range(s, q + 1, end)), end + 1))
        } else {
            Err(EvalError::Syntax(q))
        }
    } else if 0x30 <= b && b <= 0x39 {
        let end = scan_run(s, q, ByteClass::Digit);
        proof {
            lemma_run_end(s@, q as int, ByteClass::Digit);
        }
        if has_byte(s, end, 0x2e) && end + 1 < s.len() && byte_is_digit(s[end + 1]) {
            let frac_end = scan_run(s, end + 1, ByteClass::Digit);
            proof {
                lemma_run_end(s@, end + 1, ByteClass::Digit);
            }
            let mut digits = copy_range(s, q, end);
            push_bytes(&mut digits, copy_range(s, end + 1, frac_end).as_slice());
            assert(all_digits(digits@));
            if frac_end - end - 1 > 18 {
                return Err(EvalError::UnsupportedNumber(q));
            }
            match parse_digits(digits.as_slice()) {
                Some(n) => {
                    let after = scan_run(s, frac_end, ByteClass::Alpha);
                    Ok(
                        (
                            Expr::Decimal {
                                mantissa: n,
                                scale: (frac_end - end - 1) as u8,
                                pos: q,
                            },
                            after,
                        ),
                    )
                },
                None => Err(EvalError::UnsupportedNumber(q)),
            }
        } else {
            let digits = copy_range(s, q, end);
            assert(all_digits(digits@));
            match parse_digits(digits.as_slice()) {
                Some(n) => {
                    let after = scan_run(s, end, ByteClass::Alpha);
                    Ok((Expr::Number(n), after))
                },
                None => Err(EvalError::UnsupportedNumber(q)),
            }
        }
    } else if byte_is_alpha(b) || b == 0x5f {
        let end = scan_run(s, q, ByteClass::Word);
        Ok((name_expr(copy_range(s, q, end)), end))
    } else {
        Err(EvalError::Syntax(q))
    }
}

fn accesses(s: &[u8], pos: usize, base: Expr) -> (r: Result<(Expr, usize), EvalError>)
    requires
        pos <= s.len(),
    ensures
        match r {
            Ok((e, p)) => parse_accesses(s@, pos as int, base@) == Ok::<
                (ExprView, int),
                EvalError,
            >((e@, p as int)) && pos <= p <= s.len(),
            Err(x) => parse_accesses(s@, pos as int, base@) == Err::<(ExprView, int), EvalError>(
                x,
            ),
        },
    decreases s.len() - pos, 0int,
{
    if has_byte(s, pos, 0x2e) {
        let end = scan_run(s, pos + 1, ByteClass::Word);
        if pos + 1 < end {
            let name = copy_range(s, pos + 1, end);
            accesses(s, end, Expr::Field(Box::new(base), name))
        } else {
            Err(EvalError::Syntax(pos + 1))
        }
    } else if has_byte(s, pos, 0x5b) {
        match level(s, pos + 1, 0) {
            Ok((index, p)) => {
                let r = skip_blanks_from(s, p);
                if has_byte(s, r, 0x5d) {
                    accesses(s, r + 1, Expr::Index(Box::new(base), Box::new(index)))
                } else {
                    Err(EvalError::Syntax(r))
                }
            },
            Err(e) => Err(e),
        }
    } else {
        Ok((base, pos))
    }
}

fn accessed(s: &[u8], pos: usize) -> (r: Result<(Expr, usize), EvalError>)
    requires
        pos <= s.len(),
    ensures
        agrees(r, parse_accessed(s@, pos as int), pos as int, s@.len() as int),
    decreases s.len() - pos, 2int,
{
    match primary(s, pos) {
        Ok((base, p)) => accesses(s, p, base),
        Err(e) => Err(e),
    }
}

fn unary(s: &[u8], pos: usize) -> (r: Result<(Expr, usize), EvalError>)
    requires
        pos <= s.len(),
    ensures
        agrees(r, parse_unary(s@, pos as int), pos as int, s@.len() as int),
    decreases s.len() - pos, 3int,
{
    let q = skip_blanks_from(s, pos);
    if has_byte(s, q, 0x21) && !has_byte(s, q + 1, 0x3d) {
        match unary(s, q + 1) {
            Ok((e, p)) => Ok((Expr::Unary(UnaryOp::Not, Box::new(e)), p)),
            Err(e) => Err(e),
        }
    } else if has_byte(s, q, 0x2d) {
        match unary(s, q + 1) {
            Ok((e, p)) => Ok((Expr::Unary(UnaryOp::Neg, Box::new(e)), p)),
            Err(e) => Err(e),
        }
    } else {
        accessed(s, pos)
    }
}

fn level(s: &[u8], pos: usize, lv: u8) -> (r: Result<(Expr, usize), EvalError>)
    requires
        pos <= s.len(),
    ensures
        agrees(r, parse_level(s@, pos as int, lv as int), pos as int, s@.len() as int),
    decreases s.len() - pos, rank(lv as int),
{
    if lv < 5 {
        match level(s, pos, lv + 1) {
            Ok((lhs, p)) => operands(s, p, lv, lhs),
            Err(e) => Err(e),
        }
    } else {
        unary(s, pos)
    }
}

fn operands(s: &[u8], pos: usize, lv: u8, lhs: Expr) -> (r: Result<(Expr, usize), EvalError>)
    requires
        pos <= s.len(),
        lv < 5,
    ensures
        match r {
            Ok((e, p)) => parse_operands(s@, pos as int, lv as int, lhs@) == Ok::<
                (ExprView, int),
                EvalError,
            >((e@, p as int)) && pos <= p <= s.len(),
            Err(x) => parse_operands(s@, pos as int, lv as int, lhs@) == Err::<
                (ExprView, int),
                EvalError,
            >(x),
        },
    decreases s.len() - pos, 0int,
{
    let q = skip_blanks_from(s, pos);
    match find_op(s, q, lv) {
        Some((op, n)) => {
            match level(s, q + n, lv + 1) {
                Ok((rhs, p)) => operands(s, p, lv, Expr::Binary(op, Box::new(lhs), Box::new(rhs))),
                Err(e) => Err(e),
            }
        },
        None => Ok((lhs, pos)),
    }
}

/// Parses the text of an expression into evaluable form.
pub fn parse(s: &[u8]) -> (r: Result<Expr, EvalError>)
    ensures
        match r {
            Ok(e) => parse_expr(s@) == Ok::<ExprView, EvalError>(e@),
            Err(x) => parse_expr(s@) == Err::<ExprView, EvalError>(x),
        },
{
    match level(s, 0, 0) {
        Ok((e, p)) => {
            let r = skip_blanks_from(s, p);
            if r >= s.len() {
                Ok(e)
            } else {
                Err(EvalError::Syntax(r))
            }
        },
        Err(e) => Err(e),
    }
}

} // verus!
