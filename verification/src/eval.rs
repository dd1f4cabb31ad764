//! Evaluates expressions against a context of named values.
//!
//! Integers are computed with exactly, whatever their kind. A number that is
//! written with a fraction is compared exactly with integers and with its
//! like, and stands nowhere else. Floating-point values are carried and never
//! computed with: an operator that meets one reports a mismatch, but for the
//! comparison with nil.

use crate::decimal::{all_digits, i64_text, int_of_text, int_text, parse_digits, u64_text};
use crate::expr::{parse, parse_expr, BinaryOp, EvalError, Expr, ExprView, UnaryOp};
use crate::text::{bytes_eq, copy_bytes, copy_range, is_digit};
use crate::value::{lemma_views, Value, ValueView};
use vstd::prelude::*;

verus! {

/// The names that an expression may refer to, each with its value. A name that
/// is bound again hides its earlier binding.
#[derive(Debug)]
pub struct Context {
    pub vars: Vec<(Vec<u8>, Value)>,
}

/// What each binding of a sequence stands for.
pub open spec fn binding_views(s: Seq<(Vec<u8>, Value)>) -> Seq<(Seq<u8>, ValueView)>
    decreases s.len(),
{
    if s.len() == 0 {
        Seq::empty()
    } else {
        binding_views(s.drop_last()).push((s.last().0@, s.last().1@))
    }
}

/// The views of a sequence of bindings are the views of its bindings, one for one.
pub proof fn lemma_binding_views(s: Seq<(Vec<u8>, Value)>)
    ensures
        binding_views(s).len() == s.len(),
        forall|i: int| 0 <= i < s.len() ==> (#[trigger] binding_views(s)[i]) == (s[i].0@, s[i].1@),
    decreases s.len(),
{
    if s.len() > 0 {
        lemma_binding_views(s.drop_last());
    }
}

/// A sequence with one more binding at its end stands for one more view.
pub proof fn lemma_binding_views_push(s: Seq<(Vec<u8>, Value)>, b: (Vec<u8>, Value))
    ensures
        binding_views(s.push(b)) == binding_views(s).push((b.0@, b.1@)),
{
    assert(s.push(b).drop_last() =~= s);
}

impl View for Context {
    type V = Seq<(Seq<u8>, ValueView)>;

    open spec fn view(&self) -> Seq<(Seq<u8>, ValueView)> {
        binding_views(self.vars@)
    }
}

/// The value that the latest binding of `name` gives it; nil where none does.
pub open spec fn lookup(scope: Seq<(Seq<u8>, ValueView)>, name: Seq<u8>) -> ValueView
    decreases scope.len(),
{
    if scope.len() == 0 {
        ValueView::Nil
    } else if scope.last().0 == name {
        scope.last().1
    } else {
        lookup(scope.drop_last(), name)
    }
}

/// Whether a test on the value holds: nil and false do not hold, every other
/// value does, zero and the empty text among them.
pub open spec fn truthy(v: ValueView) -> bool {
    !(v is Nil) && v != ValueView::Boolean(false)
}

/// The value of a number written in an expression: signed where it fits.
pub open spec fn number_value(n: u64) -> ValueView {
    if n <= i64::MAX {
        ValueView::I64(n as i64)
    } else {
        ValueView::U64(n)
    }
}

/// The value that holds the integer `r`: unsigned where that is asked for and
/// `r` is not negative, else signed where it fits, else unsigned where it
/// fits; an error where no kind holds it.
pub open spec fn int_result(r: int, unsigned: bool) -> Result<ValueView, EvalError> {
    if unsigned && 0 <= r <= u64::MAX {
        Ok(ValueView::U64(r as u64))
    } else if i64::MIN <= r <= i64::MAX {
        Ok(ValueView::I64(r as i64))
    } else if 0 <= r <= u64::MAX {
        Ok(ValueView::U64(r as u64))
    } else {
        Err(EvalError::ArithmeticError)
    }
}

/// The size of an integer without its sign.
pub open spec fn magnitude(a: int) -> int {
    if a < 0 {
        -a
    } else {
        a
    }
}

/// The quotient rounded towards zero.
pub open spec fn trunc_div(a: int, b: int) -> int {
    if (a < 0) == (b < 0) {
        magnitude(a) / magnitude(b)
    } else {
        -(magnitude(a) / magnitude(b))
    }
}

/// The result of an arithmetic operator on two values: both are integers, and
/// the result is unsigned where both are.
pub open spec fn arith(op: BinaryOp, a: ValueView, b: ValueView) -> Result<ValueView, EvalError> {
    if !(a.is_integer() && b.is_integer()) {
        Err(EvalError::TypeMismatch)
    } else {
        let x = a.integer();
        let y = b.integer();
        let unsigned = a is U64 && b is U64;
        match op {
            BinaryOp::Add => int_result(x + y, unsigned),
            BinaryOp::Sub => int_result(x - y, unsigned),
            BinaryOp::Mul => int_result(x * y, unsigned),
            BinaryOp::Div => if y == 0 {
                Err(EvalError::ArithmeticError)
            } else {
                int_result(trunc_div(x, y), unsigned)
            },
            _ => Err(EvalError::TypeMismatch),
        }
    }
}

/// How two texts stand to one another in the order of their bytes: below zero
/// where the first comes first, zero where they are the same, above zero else.
pub open spec fn text_order(a: Seq<u8>, b: Seq<u8>) -> int
    decreases a.len(),
{
    if a.len() == 0 {
        if b.len() == 0 {
            0
        } else {
            -1
        }
    } else if b.len() == 0 {
        1
    } else if a[0] < b[0] {
        -1
    } else if a[0] > b[0] {
        1
    } else {
        text_order(a.drop_first(), b.drop_first())
    }
}

/// Two texts stand level in the order of their bytes where they are the same
/// text, and there only: on texts `==` is equality.
pub proof fn law_texts_are_level_where_equal(a: Seq<u8>, b: Seq<u8>)
    ensures
        text_order(a, b) == 0 <==> a == b,
    decreases a.len(),
{
    if a.len() > 0 && b.len() > 0 {
        law_texts_are_level_where_equal(a.drop_first(), b.drop_first());
        if a[0] == b[0] && a.drop_first() == b.drop_first() {
            assert(a =~= seq![a[0]] + a.drop_first());
            assert(b =~= seq![b[0]] + b.drop_first());
        }
    } else if a.len() == 0 && b.len() == 0 {
        assert(a =~= b);
    }
}

/// How two integers stand to one another.
pub open spec fn int_order(x: int, y: int) -> int {
    if x < y {
        -1
    } else if x == y {
        0
    } else {
        1
    }
}

/// Whether a comparison holds of two things that stand to one another as `order` says.
pub open spec fn holds(op: BinaryOp, order: int) -> bool {
    match op {
        BinaryOp::Equal => order == 0,
        BinaryOp::NotEqual => order != 0,
        BinaryOp::Less => order < 0,
        BinaryOp::LessEqual => order <= 0,
        BinaryOp::Greater => order > 0,
        BinaryOp::GreaterEqual => order >= 0,
        _ => false,
    }
}

/// Whether the operator is one of the six comparisons.
pub open spec fn is_comparison(op: BinaryOp) -> bool {
    op is Equal || op is NotEqual || op is Less || op is LessEqual || op is Greater
        || op is GreaterEqual
}

/// The integer that a text is taken for where it is compared with a number: the
/// one that it denotes, where an integer value can hold it.
pub open spec fn coerced(s: Seq<u8>) -> Option<int> {
    match int_of_text(s) {
        Some(n) => if i64::MIN <= n <= u64::MAX {
            Some(n)
        } else {
            None
        },
        None => None,
    }
}

/// The result of a comparison.
///
/// Nil equals nil alone. Integers compare by their numbers and texts by their
/// bytes. Of an integer and a text, the text is taken for a number where it
/// denotes one, and the integer for its decimal text where it does not. Truth
/// values are equal or not. All else is a mismatch.
pub open spec fn relate(op: BinaryOp, a: ValueView, b: ValueView) -> Result<ValueView, EvalError> {
    if !is_comparison(op) {
        Err(EvalError::TypeMismatch)
    } else if a is Nil || b is Nil {
        match op {
            BinaryOp::Equal => Ok(ValueView::Boolean(a is Nil && b is Nil)),
            BinaryOp::NotEqual => Ok(ValueView::Boolean(!(a is Nil && b is Nil))),
            _ => Err(EvalError::TypeMismatch),
        }
    } else if a.is_integer() && b.is_integer() {
        Ok(ValueView::Boolean(holds(op, int_order(a.integer(), b.integer()))))
    } else if a is String && b is String {
        Ok(ValueView::Boolean(holds(op, text_order(a->String_0, b->String_0))))
    } else if a.is_integer() && b is String {
        match coerced(b->String_0) {
            Some(n) => Ok(ValueView::Boolean(holds(op, int_order(a.integer(), n)))),
            None => Ok(
                ValueView::Boolean(holds(op, text_order(int_text(a.integer()), b->String_0))),
            ),
        }
    } else if a is String && b.is_integer() {
        match coerced(a->String_0) {
            Some(n) => Ok(ValueView::Boolean(holds(op, int_order(n, b.integer())))),
            None => Ok(
                ValueView::Boolean(holds(op, text_order(a->String_0, int_text(b.integer())))),
            ),
        }
    } else if a is Boolean && b is Boolean {
        match op {
            BinaryOp::Equal => Ok(ValueView::Boolean(a == b)),
            BinaryOp::NotEqual => Ok(ValueView::Boolean(a != b)),
            _ => Err(EvalError::TypeMismatch),
        }
    } else {
        Err(EvalError::TypeMismatch)
    }
}

/// The result of an operator with one operand.
pub open spec fn apply_unary(op: UnaryOp, v: ValueView) -> Result<ValueView, EvalError> {
    match op {
        UnaryOp::Not => Ok(ValueView::Boolean(!truthy(v))),
        UnaryOp::Neg => if v.is_integer() {
            int_result(-v.integer(), false)
        } else {
            Err(EvalError::TypeMismatch)
        },
    }
}

/// The result of an operator with two operands, both of them evaluated.
pub open spec fn apply_binary(op: BinaryOp, a: ValueView, b: ValueView) -> Result<
    ValueView,
    EvalError,
> {
    match op {
        BinaryOp::Or => Ok(ValueView::Boolean(truthy(a) || truthy(b))),
        BinaryOp::And => Ok(ValueView::Boolean(truthy(a) && truthy(b))),
        BinaryOp::Add | BinaryOp::Sub | BinaryOp::Mul | BinaryOp::Div => arith(op, a, b),
        _ => relate(op, a, b),
    }
}

/// Ten to the power of `n`.
pub open spec fn pow10(n: nat) -> int
    decreases n,
{
    if n == 0 {
        1
    } else {
        10 * pow10((n - 1) as nat)
    }
}

/// The number that an expression is written as, where it is a number with a
/// fraction, with or without minus signs before it: the mantissa with its sign,
/// and the scale. The number is the mantissa divided by ten to the scale.
pub open spec fn decimal_of(e: ExprView) -> Option<(int, nat)>
    decreases e,
{
    match e {
        ExprView::Decimal { mantissa, scale, pos } => if scale <= 18 {
            Some((mantissa as int, scale as nat))
        } else {
            None
        },
        ExprView::Unary(UnaryOp::Neg, a) => match decimal_of(*a) {
            Some((m, k)) => Some((-m, k)),
            None => None,
        },
        _ => None,
    }
}

/// An operand of a comparison that is decided exactly.
pub enum Exact {
    /// The number `mantissa / 10^scale`.
    Number(int, nat),
    /// Nil.
    Nil,
    /// Any other value.
    Other,
}

/// The operand that an expression is: the number that it is written as, or
/// else what its value is.
pub open spec fn exact_operand(written: Option<(int, nat)>, value: Result<ValueView, EvalError>) -> Result<
    Exact,
    EvalError,
> {
    match written {
        Some((m, k)) => Ok(Exact::Number(m, k)),
        None => match value {
            Err(x) => Err(x),
            Ok(v) => if v.is_integer() {
                Ok(Exact::Number(v.integer(), 0))
            } else if v is Nil {
                Ok(Exact::Nil)
            } else {
                Ok(Exact::Other)
            },
        },
    }
}

/// The result of a comparison in which a number with a fraction stands: two
/// numbers compare as the fractions that they are, nil equals nil alone, and
/// all else is a mismatch.
pub open spec fn compare_exact(op: BinaryOp, a: Exact, b: Exact) -> Result<ValueView, EvalError> {
    match (a, b) {
        (Exact::Number(m1, k1), Exact::Number(m2, k2)) => Ok(
            ValueView::Boolean(holds(op, int_order(m1 * pow10(k2), m2 * pow10(k1)))),
        ),
        _ => if a is Nil || b is Nil {
            match op {
                BinaryOp::Equal => Ok(ValueView::Boolean(a is Nil && b is Nil)),
                BinaryOp::NotEqual => Ok(ValueView::Boolean(!(a is Nil && b is Nil))),
                _ => Err(EvalError::TypeMismatch),
            }
        } else {
            Err(EvalError::TypeMismatch)
        },
    }
}

/// An integer equals the number with a fraction that is written for it with
/// zeros after the point, however many: `1 == 1.0`.
pub proof fn law_whole_number_equals_its_integer(x: int, k: nat)
    ensures
        compare_exact(BinaryOp::Equal, Exact::Number(x, 0), Exact::Number(x * pow10(k), k))
            == Ok::<ValueView, EvalError>(ValueView::Boolean(true)),
{
    assert(pow10(0) == 1);
    assert((x * pow10(k)) * 1 == x * pow10(k)) by (nonlinear_arith);
}

/// The part of a value that a key selects: the element at an integer, the entry
/// under a text, nil for any other key.
pub open spec fn select(v: ValueView, key: ValueView) -> ValueView {
    if key.is_integer() {
        v.element(key.integer())
    } else if key is String {
        v.entry(key->String_0)
    } else {
        ValueView::Nil
    }
}

/// The value of an expression in a scope.
///
/// A name that the scope does not bind is nil, and so is a part that a value
/// does not have. `&&` and `||` leave their right operand alone where the left
/// one decides. A number with a fraction has no value of its own: it stands as
/// an operand of a comparison, where it is compared exactly.
pub open spec fn eval(e: ExprView, scope: Seq<(Seq<u8>, ValueView)>) -> Result<
    ValueView,
    EvalError,
>
    decreases e,
{
    match e {
        ExprView::Nil => Ok(ValueView::Nil),
        ExprView::Boolean(b) => Ok(ValueView::Boolean(b)),
        ExprView::Number(n) => Ok(number_value(n)),
        ExprView::Decimal { mantissa, scale, pos } => Err(EvalError::UnsupportedNumber(pos)),
        ExprView::Str(s) => Ok(ValueView::String(s)),
        ExprView::Var(name) => Ok(lookup(scope, name)),
        ExprView::Field(base, name) => match eval(*base, scope) {
            Ok(v) => Ok(v.entry(name)),
            Err(x) => Err(x),
        },
        ExprView::Index(base, index) => match eval(*base, scope) {
            Ok(v) => match eval(*index, scope) {
                Ok(k) => Ok(select(v, k)),
                Err(x) => Err(x),
            },
            Err(x) => Err(x),
        },
        ExprView::Unary(op, a) => match eval(*a, scope) {
            Ok(v) => apply_unary(op, v),
            Err(x) => Err(x),
        },
        ExprView::Binary(op, a, b) => if is_comparison(op) && (decimal_of(*a) is Some
            || decimal_of(*b) is Some) {
            match exact_operand(decimal_of(*a), eval(*a, scope)) {
                Err(x) => Err(x),
                Ok(l) => match exact_operand(decimal_of(*b), eval(*b, scope)) {
                    Err(x) => Err(x),
                    Ok(r) => compare_exact(op, l, r),
                },
            }
        } else {
            match eval(*a, scope) {
            Ok(x) => if op is And && !truthy(x) {
                Ok(ValueView::Boolean(false))
            } else if op is Or && truthy(x) {
                Ok(ValueView::Boolean(true))
            } else {
                match eval(*b, scope) {
                    Ok(y) => apply_binary(op, x, y),
                    Err(err) => Err(err),
                }
            },
            Err(err) => Err(err),
            }
        },
    }
}

/// The value of the expression that a text is, in a scope.
pub open spec fn eval_text(s: Seq<u8>, scope: Seq<(Seq<u8>, ValueView)>) -> Result<
    ValueView,
    EvalError,
> {
    match parse_expr(s) {
        Ok(e) => eval(e, scope),
        Err(x) => Err(x),
    }
}

/// Whether an executable result is the value or the error that is owed.
pub open spec fn gives(r: Result<Value, EvalError>, owed: Result<ValueView, EvalError>) -> bool {
    match r {
        Ok(v) => owed == Ok::<ValueView, EvalError>(v@),
        Err(x) => owed == Err::<ValueView, EvalError>(x),
    }
}

impl Context {
    /// A context that binds no name.
    pub fn new() -> (r: Context)
        ensures
            r@ == Seq::<(Seq<u8>, ValueView)>::empty(),
    {
        Context { vars: Vec::new() }
    }

    /// Binds `name` to `value`, before any earlier binding of the name.
    pub fn set(&mut self, name: &[u8], value: Value)
        ensures
            final(self)@ == old(self)@.push((name@, value@)),
    {
        let ghost before = self.vars@;
        let entry = (copy_bytes(name), value);
        proof {
            lemma_binding_views_push(before, entry);
        }
        self.vars.push(entry);
    }

    /// Number of bindings, hidden ones among them.
    pub fn len(&self) -> (r: usize)
        ensures
            r == self@.len(),
    {
        proof {
            lemma_binding_views(self.vars@);
        }
        self.vars.len()
    }

    /// Forgets every binding after the first `len`.
    pub fn truncate(&mut self, len: usize)
        requires
            len <= old(self)@.len(),
        ensures
            final(self)@ == old(self)@.subrange(0, len as int),
    {
        proof {
            lemma_binding_views(self.vars@);
        }
        self.vars.truncate(len);
        proof {
            lemma_binding_views(self.vars@);
            assert(self@ =~= old(self)@.subrange(0, len as int));
        }
    }

    /// The value that the latest binding of `name` gives it; none stands for nil.
    pub fn get(&self, name: &[u8]) -> (r: Option<&Value>)
        ensures
            match r {
                Some(v) => v@ == lookup(self@, name@),
                None => lookup(self@, name@) is Nil,
            },
    {
        proof {
            lemma_binding_views(self.vars@);
            assert(self@.subrange(0, self.vars@.len() as int) =~= self@);
        }
        let mut i: usize = self.vars.len();
        while i > 0
            invariant
                i <= self.vars.len(),
                binding_views(self.vars@).len() == self.vars@.len(),
                forall|j: int|
                    0 <= j < self.vars@.len() ==> (#[trigger] binding_views(self.vars@)[j]) == (
                        self.vars@[j].0@,
                        self.vars@[j].1@,
                    ),
                lookup(self@, name@) == lookup(self@.subrange(0, i as int), name@),
            decreases i,
        {
            let ghost part = self@.subrange(0, i as int);
            assert(part.last() == self@[i - 1]);
            assert(part.drop_last() =~= self@.subrange(0, i - 1));
            if bytes_eq(self.vars[i - 1].0.as_slice(), name) {
                return Some(&self.vars[i - 1].1);
            }
            i -= 1;
        }
        None
    }
}

/// Whether a test on the value holds.
pub fn is_truthy(v: &Value) -> (r: bool)
    ensures
        r == truthy(v@),
{
    match v {
        Value::Nil => false,
        Value::Boolean(b) => *b,
        _ => true,
    }
}

fn integer_of(v: &Value) -> (r: Option<i128>)
    ensures
        match r {
            Some(n) => v@.is_integer() && n == v@.integer(),
            None => !v@.is_integer(),
        },
{
    match v {
        Value::I64(n) => Some(*n as i128),
        Value::U64(n) => Some(*n as i128),
        _ => None,
    }
}

fn integer_value(r: i128, unsigned: bool) -> (out: Result<Value, EvalError>)
    ensures
        gives(out, int_result(r as int, unsigned)),
{
    if unsigned && 0 <= r && r <= 0xffff_ffff_ffff_ffff {
        Ok(Value::U64(r as u64))
    } else if -0x8000_0000_0000_0000 <= r && r <= 0x7fff_ffff_ffff_ffff {
        Ok(Value::I64(r as i64))
    } else if 0 <= r && r <= 0xffff_ffff_ffff_ffff {
        Ok(Value::U64(r as u64))
    } else {
        Err(EvalError::ArithmeticError)
    }
}

fn magnitude_of(a: i128) -> (r: u128)
    requires
        -0x1_0000_0000_0000_0000 < a < 0x1_0000_0000_0000_0000,
    ensures
        r == magnitude(a as int),
        r < 0x1_0000_0000_0000_0000,
{
    if a < 0 {
        (-a) as u128
    } else {
        a as u128
    }
}

fn arith_values(op: BinaryOp, a: &Value, b: &Value) -> (r: Result<Value, EvalError>)
    ensures
        gives(r, arith(op, a@, b@)),
{
    let x = match integer_of(a) {
        Some(n) => n,
        None => {
            return Err(EvalError::TypeMismatch);
        },
    };
    let y = match integer_of(b) {
        Some(n) => n,
        None => {
            return Err(EvalError::TypeMismatch);
        },
    };
    let unsigned = a.is_u64() && b.is_u64();
    match op {
        BinaryOp::Add => integer_value(x + y, unsigned),
        BinaryOp::Sub => integer_value(x - y, unsigned),
        BinaryOp::Mul => {
            let mx = magnitude_of(x);
            let my = magnitude_of(y);
            assert(mx * my <= 0xffff_ffff_ffff_ffff * 0xffff_ffff_ffff_ffff) by (nonlinear_arith)
                requires
                    0 <= mx <= 0xffff_ffff_ffff_ffff,
                    0 <= my <= 0xffff_ffff_ffff_ffff,
            ;
            let p: u128 = mx * my;
            let negative = (x < 0) != (y < 0);
            assert(magnitude(x * y) == mx * my && ((x * y < 0) ==> negative) && (negative ==> x
                * y <= 0)) by (nonlinear_arith)
                requires
                    mx == magnitude(x as int),
                    my == magnitude(y as int),
                    negative == ((x < 0) != (y < 0)),
            ;
            if p > 0xffff_ffff_ffff_ffff {
                Err(EvalError::ArithmeticError)
            } else if negative {
                integer_value(-(p as i128), unsigned)
            } else {
                integer_value(p as i128, unsigned)
            }
        },
        BinaryOp::Div => {
            if y == 0 {
                return Err(EvalError::ArithmeticError);
            }
            let mx = magnitude_of(x);
            let my = magnitude_of(y);
            let q: u128 = mx / my;
            assert(q <= mx) by (nonlinear_arith)
                requires
                    q == mx / my,
                    my > 0,
                    mx >= 0,
            ;
            if (x < 0) == (y < 0) {
                integer_value(q as i128, unsigned)
            } else {
                integer_value(-(q as i128), unsigned)
            }
        },
        _ => Err(EvalError::TypeMismatch),
    }
}

/// How two texts stand to one another in the order of their bytes.
pub fn order_texts(a: &[u8], b: &[u8]) -> (r: i8)
    ensures
        r == text_order(a@, b@),
{
    let mut i: usize = 0;
    assert(a@.subrange(0, a@.len() as int) =~= a@);
    assert(b@.subrange(0, b@.len() as int) =~= b@);
    while i < a.len() && i < b.len()
        invariant
            i <= a.len(),
            i <= b.len(),
            text_order(a@, b@) == text_order(
                a@.subrange(i as int, a@.len() as int),
                b@.subrange(i as int, b@.len() as int),
            ),
        decreases a.len() - i,
    {
        let ghost ra = a@.subrange(i as int, a@.len() as int);
        let ghost rb = b@.subrange(i as int, b@.len() as int);
        assert(ra[0] == a@[i as int] && rb[0] == b@[i as int]);
        assert(ra.drop_first() =~= a@.subrange(i + 1, a@.len() as int));
        assert(rb.drop_first() =~= b@.subrange(i + 1, b@.len() as int));
        if a[i] < b[i] {
            return -1;
        }
        if a[i] > b[i] {
            return 1;
        }
        i += 1;
    }
    if i < b.len() {
        -1
    } else if i < a.len() {
        1
    } else {
        0
    }
}

fn order_integers(x: i128, y: i128) -> (r: i8)
    ensures
        r == int_order(x as int, y as int),
{
    if x < y {
        -1
    } else if x == y {
        0
    } else {
        1
    }
}

fn holds_of(op: BinaryOp, order: i8) -> (r: bool)
    ensures
        r == holds(op, order as int),
{
    match op {
        BinaryOp::Equal => order == 0,
        BinaryOp::NotEqual => order != 0,
        BinaryOp::Less => order < 0,
        BinaryOp::LessEqual => order <= 0,
        BinaryOp::Greater => order > 0,
        BinaryOp::GreaterEqual => order >= 0,
        _ => false,
    }
}

fn comparison(op: BinaryOp) -> (r: bool)
    ensures
        r == is_comparison(op),
{
    match op {
        BinaryOp::Equal | BinaryOp::NotEqual | BinaryOp::Less | BinaryOp::LessEqual
        | BinaryOp::Greater | BinaryOp::GreaterEqual => true,
        _ => false,
    }
}

/// The integer that a text is taken for where it is compared with a number.
pub fn coerce(s: &[u8]) -> (r: Option<i128>)
    ensures
        match r {
            Some(n) => coerced(s@) == Some(n as int),
            None => coerced(s@) is None,
        },
{
    if s.len() > 1 && s[0] == 0x2d {
        let rest = copy_range(s, 1, s.len());
        assert(rest@ =~= s@.drop_first());
        match parse_digits(rest.as_slice()) {
            Some(m) => {
                if m <= 0x8000_0000_0000_0000 {
                    Some(-(m as i128))
                } else {
                    None
                }
            },
            None => {
                assert(!all_digits(s@)) by {
                    if all_digits(s@) {
                        assert(is_digit(s@[0]));
                    }
                }
                None
            },
        }
    } else {
        if s.len() > 0 && s[0] == 0x2d {
            assert(!all_digits(s@)) by {
                if all_digits(s@) {
                    assert(is_digit(s@[0]));
                }
            }
        }
        match parse_digits(s) {
            Some(m) => Some(m as i128),
            None => None,
        }
    }
}

fn integer_text(n: i128) -> (r: Vec<u8>)
    requires
        -0x8000_0000_0000_0000 <= n <= 0xffff_ffff_ffff_ffff,
    ensures
        r@ == int_text(n as int),
{
    if n < 0 {
        i64_text(n as i64)
    } else {
        u64_text(n as u64)
    }
}

fn relate_values(op: BinaryOp, a: &Value, b: &Value) -> (r: Result<Value, EvalError>)
    ensures
        gives(r, relate(op, a@, b@)),
{
    if !comparison(op) {
        return Err(EvalError::TypeMismatch);
    }
    if a.is_nil() || b.is_nil() {
        let both = a.is_nil() && b.is_nil();
        return match op {
            BinaryOp::Equal => Ok(Value::Boolean(both)),
            BinaryOp::NotEqual => Ok(Value::Boolean(!both)),
            _ => Err(EvalError::TypeMismatch),
        };
    }
    match (a, b) {
        (Value::String(s), Value::String(t)) => Ok(
            Value::Boolean(holds_of(op, order_texts(s.as_slice(), t.as_slice()))),
        ),
        (Value::Boolean(x), Value::Boolean(y)) => match op {
            BinaryOp::Equal => Ok(Value::Boolean(*x == *y)),
            BinaryOp::NotEqual => Ok(Value::Boolean(*x != *y)),
            _ => Err(EvalError::TypeMismatch),
        },
        (_, Value::String(t)) => match integer_of(a) {
            Some(x) => match coerce(t.as_slice()) {
                Some(n) => Ok(Value::Boolean(holds_of(op, order_integers(x, n)))),
                None => {
                    let text = integer_text(x);
                    Ok(Value::Boolean(holds_of(op, order_texts(text.as_slice(), t.as_slice()))))
                },
            },
            None => Err(EvalError::TypeMismatch),
        },
        (Value::String(s), _) => match integer_of(b) {
            Some(y) => match coerce(s.as_slice()) {
                Some(n) => Ok(Value::Boolean(holds_of(op, order_integers(n, y)))),
                None => {
                    let text = integer_text(y);
                    Ok(Value::Boolean(holds_of(op, order_texts(s.as_slice(), text.as_slice()))))
                },
            },
            None => Err(EvalError::TypeMismatch),
        },
        _ => match integer_of(a) {
            Some(x) => match integer_of(b) {
                Some(y) => Ok(Value::Boolean(holds_of(op, order_integers(x, y)))),
                None => Err(EvalError::TypeMismatch),
            },
            None => Err(EvalError::TypeMismatch),
        },
    }
}

fn unary_value(op: UnaryOp, v: &Value) -> (r: Result<Value, EvalError>)
    ensures
        gives(r, apply_unary(op, v@)),
{
    match op {
        UnaryOp::Not => Ok(Value::Boolean(!is_truthy(v))),
        UnaryOp::Neg => match integer_of(v) {
            Some(n) => integer_value(-n, false),
            None => Err(EvalError::TypeMismatch),
        },
    }
}

fn binary_value(op: BinaryOp, a: &Value, b: &Value) -> (r: Result<Value, EvalError>)
    ensures
        gives(r, apply_binary(op, a@, b@)),
{
    match op {
        BinaryOp::Or => Ok(Value::Boolean(is_truthy(a) || is_truthy(b))),
        BinaryOp::And => Ok(Value::Boolean(is_truthy(a) && is_truthy(b))),
        BinaryOp::Add | BinaryOp::Sub | BinaryOp::Mul | BinaryOp::Div => arith_values(op, a, b),
        _ => relate_values(op, a, b),
    }
}

fn owned(v: Option<&Value>) -> (r: Value)
    ensures
        r@ == (match v {
            Some(x) => x@,
            None => ValueView::Nil,
        }),
{
    match v {
        Some(x) => x.copy(),
        None => Value::Nil,
    }
}

fn select_value(v: &Value, key: &Value) -> (r: Value)
    ensures
        r@ == select(v@, key@),
{
    match key {
        Value::I64(n) => {
            if *n >= 0 && (*n as u64) <= usize::MAX as u64 {
                owned(v.index(*n as usize))
            } else {
                proof {
                    if v is Array {
                        lemma_views(v->Array_0@);
                        assert(v->Array_0.len() <= usize::MAX);
                    }
                }
                Value::Nil
            }
        },
        Value::U64(n) => {
            if *n <= usize::MAX as u64 {
                owned(v.index(*n as usize))
            } else {
                proof {
                    if v is Array {
                        lemma_views(v->Array_0@);
                        assert(v->Array_0.len() <= usize::MAX);
                    }
                }
                Value::Nil
            }
        },
        Value::String(s) => owned(v.index_key(s.as_slice())),
        _ => Value::Nil,
    }
}

proof fn lemma_pow10_grows(a: nat, b: nat)
    requires
        a <= b,
    ensures
        1 <= pow10(a) <= pow10(b),
    decreases b,
{
    if b > 0 {
        if a < b {
            lemma_pow10_grows(a, (b - 1) as nat);
        } else {
            lemma_pow10_grows((a - 1) as nat, (b - 1) as nat);
        }
    }
}

proof fn lemma_pow10_bound(n: nat)
    requires
        n <= 18,
    ensures
        1 <= pow10(n) <= 1_000_000_000_000_000_000,
{
    lemma_pow10_grows(n, 18);
    reveal_with_fuel(pow10, 19);
    assert(pow10(18) == 1_000_000_000_000_000_000);
}

fn power_of_ten(n: u8) -> (r: i128)
    requires
        n <= 18,
    ensures
        r == pow10(n as nat),
        1 <= r <= 1_000_000_000_000_000_000,
{
    let mut r: i128 = 1;
    let mut i: u8 = 0;
    while i < n
        invariant
            i <= n <= 18,
            r == pow10(i as nat),
        decreases n - i,
    {
        proof {
            lemma_pow10_bound((i + 1) as nat);
        }
        r = r * 10;
        i += 1;
    }
    proof {
        lemma_pow10_bound(n as nat);
    }
    r
}

fn decimal_literal(e: &Expr) -> (r: Option<(i128, u8)>)
    ensures
        match r {
            Some((m, k)) => decimal_of(e@) == Some((m as int, k as nat)) && k <= 18
                && -0xffff_ffff_ffff_ffff <= m <= 0xffff_ffff_ffff_ffff,
            None => decimal_of(e@) is None,
        },
    decreases e,
{
    match e {
        Expr::Decimal { mantissa, scale, pos } => {
            if *scale <= 18 {
                Some((*mantissa as i128, *scale))
            } else {
                None
            }
        },
        Expr::Unary(UnaryOp::Neg, a) => match decimal_literal(&**a) {
            Some((m, k)) => Some((-m, k)),
            None => None,
        },
        _ => None,
    }
}

/// An operand of an exact comparison, as it is computed with.
enum Operand {
    Number(i128, u8),
    Nil,
    Other,
}

impl Operand {
    spec fn exact(self) -> Exact {
        match self {
            Operand::Number(m, k) => Exact::Number(m as int, k as nat),
            Operand::Nil => Exact::Nil,
            Operand::Other => Exact::Other,
        }
    }

    spec fn in_range(self) -> bool {
        self matches Operand::Number(m, k) ==> k <= 18 && -0xffff_ffff_ffff_ffff <= m
            <= 0xffff_ffff_ffff_ffff
    }
}

fn operand(e: &Expr, ctx: &Context) -> (r: Result<Operand, EvalError>)
    ensures
        match r {
            Ok(o) => exact_operand(decimal_of(e@), eval(e@, ctx@)) == Ok::<Exact, EvalError>(
                o.exact(),
            ) && o.in_range(),
            Err(x) => exact_operand(decimal_of(e@), eval(e@, ctx@)) == Err::<Exact, EvalError>(x),
        },
    decreases e, 1int,
{
    match decimal_literal(e) {
        Some((m, k)) => Ok(Operand::Number(m, k)),
        None => match eval_expr(e, ctx) {
            Err(x) => Err(x),
            Ok(v) => match integer_of(&v) {
                Some(n) => Ok(Operand::Number(n, 0)),
                None => {
                    if v.is_nil() {
                        Ok(Operand::Nil)
                    } else {
                        Ok(Operand::Other)
                    }
                },
            },
        },
    }
}

fn compare_operands(op: BinaryOp, a: &Operand, b: &Operand) -> (r: Result<Value, EvalError>)
    requires
        a.in_range(),
        b.in_range(),
    ensures
        gives(r, compare_exact(op, a.exact(), b.exact())),
{
    match (a, b) {
        (Operand::Number(n1, k1), Operand::Number(n2, k2)) => {
            let m1: i128 = *n1;
            let m2: i128 = *n2;
            let p1 = power_of_ten(*k1);
            let p2 = power_of_ten(*k2);
            assert(-0xffff_ffff_ffff_ffff * 1_000_000_000_000_000_000 <= m1 * p2
                <= 0xffff_ffff_ffff_ffff * 1_000_000_000_000_000_000) by (nonlinear_arith)
                requires
                    -0xffff_ffff_ffff_ffff <= m1 <= 0xffff_ffff_ffff_ffff,
                    1 <= p2 <= 1_000_000_000_000_000_000,
            ;
            assert(-0xffff_ffff_ffff_ffff * 1_000_000_000_000_000_000 <= m2 * p1
                <= 0xffff_ffff_ffff_ffff * 1_000_000_000_000_000_000) by (nonlinear_arith)
                requires
                    -0xffff_ffff_ffff_ffff <= m2 <= 0xffff_ffff_ffff_ffff,
                    1 <= p1 <= 1_000_000_000_000_000_000,
            ;
            let left: i128 = m1 * p2;
            let right: i128 = m2 * p1;
            Ok(Value::Boolean(holds_of(op, order_integers(left, right))))
        },
        _ => {
            let a_nil = match a {
                Operand::Nil => true,
                _ => false,
            };
            let b_nil = match b {
                Operand::Nil => true,
                _ => false,
            };
            if a_nil || b_nil {
                match op {
                    BinaryOp::Equal => Ok(Value::Boolean(a_nil && b_nil)),
                    BinaryOp::NotEqual => Ok(Value::Boolean(!(a_nil && b_nil))),
                    _ => Err(EvalError::TypeMismatch),
                }
            } else {
                Err(EvalError::TypeMismatch)
            }
        },
    }
}

/// The value of an expression in a context.
pub fn eval_expr(e: &Expr, ctx: &Context) -> (r: Result<Value, EvalError>)
    ensures
        gives(r, eval(e@, ctx@)),
    decreases e, 0int,
{
    match e {
        Expr::Nil => Ok(Value::Nil),
        Expr::Boolean(b) => Ok(Value::Boolean(*b)),
        Expr::Number(n) => {
            if *n <= 0x7fff_ffff_ffff_ffff {
                Ok(Value::I64(*n as i64))
            } else {
                Ok(Value::U64(*n))
            }
        },
        Expr::Decimal { mantissa, scale, pos } => Err(EvalError::UnsupportedNumber(*pos)),
        Expr::Str(s) => Ok(Value::String(copy_bytes(s.as_slice()))),
        Expr::Var(name) => Ok(owned(ctx.get(name.as_slice()))),
        Expr::Field(base, name) => match eval_expr(&**base, ctx) {
            Ok(v) => Ok(owned(v.index_key(name.as_slice()))),
            Err(x) => Err(x),
        },
        Expr::Index(base, index) => match eval_expr(&**base, ctx) {
            Ok(v) => match eval_expr(&**index, ctx) {
                Ok(k) => Ok(select_value(&v, &k)),
                Err(x) => Err(x),
            },
            Err(x) => Err(x),
        },
        Expr::Unary(op, a) => match eval_expr(&**a, ctx) {
            Ok(v) => unary_value(*op, &v),
            Err(x) => Err(x),
        },
        Expr::Binary(op, a, b) => {
            if comparison(*op) && (decimal_literal(&**a).is_some() || decimal_literal(
                &**b,
            ).is_some()) {
                return match operand(&**a, ctx) {
                    Err(x) => Err(x),
                    Ok(l) => match operand(&**b, ctx) {
                        Err(x) => Err(x),
                        Ok(r) => compare_operands(*op, &l, &r),
                    },
                };
            }
            match eval_expr(&**a, ctx) {
            Ok(x) => {
                match op {
                    BinaryOp::And => {
                        if !is_truthy(&x) {
                            return Ok(Value::Boolean(false));
                        }
                    },
                    BinaryOp::Or => {
                        if is_truthy(&x) {
                            return Ok(Value::Boolean(true));
                        }
                    },
                    _ => {},
                }
                match eval_expr(&**b, ctx) {
                    Ok(y) => binary_value(*op, &x, &y),
                    Err(err) => Err(err),
                }
            },
            Err(err) => Err(err),
            }
        },
    }
}

/// The value of the expression that a text is, in a context.
pub fn evaluate(text: &[u8], ctx: &Context) -> (r: Result<Value, EvalError>)
    ensures
        gives(r, eval_text(text@, ctx@)),
{
    match parse(text) {
        Ok(e) => eval_expr(&e, ctx),
        Err(x) => Err(x),
    }
}

} // verus!
