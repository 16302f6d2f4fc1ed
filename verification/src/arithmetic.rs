//! Arithmetic on values: negation, sum, difference, product, quotient and
//! power over integers, rationals, complex numbers, booleans and texts.

use crate::error::Error;
use crate::interpreter::Interpreter;
use crate::number::{
    abs, complex_add, complex_div, complex_mul, complex_neg, complex_norm_sqr, complex_of_int,
    complex_of_ratio, fraction, ratio_add, ratio_div, ratio_mul, ratio_neg, ratio_of_int,
    ratio_pow, ratio_recip, Complex, ComplexView, Integer, Ratio, Rational,
};
use crate::render::render_val;
use crate::set::{infinite_contains, InfiniteSet};
use crate::value::{Val, ValView};
use vstd::arithmetic::power::pow;
use vstd::prelude::*;

verus! {

/// The outcome of an evaluation as mathematics sees it.
pub open spec fn val_result_view(r: Result<Val, Error>) -> Result<ValView, Error> {
    match r {
        Ok(v) => Ok(v@),
        Err(e) => Err(e),
    }
}

pub open spec fn bool_int(b: bool) -> int {
    if b {
        1
    } else {
        0
    }
}

/// A value as an operand of arithmetic: a number as it is, a boolean as 0 or
/// 1; `None` for anything else.
pub open spec fn as_number(v: ValView) -> Option<ValView> {
    match v {
        ValView::Integer(_) | ValView::Rational(_) | ValView::Complex(_) => Some(v),
        ValView::Boolean(b) => Some(ValView::Integer(bool_int(b))),
        _ => None,
    }
}

/// An integer or a rational as a fraction.
pub open spec fn as_ratio(v: ValView) -> Ratio {
    match v {
        ValView::Integer(i) => ratio_of_int(i),
        ValView::Rational(q) => q,
        _ => ratio_of_int(0),
    }
}

/// A number as a complex number.
pub open spec fn as_complex(v: ValView) -> ComplexView {
    match v {
        ValView::Integer(i) => complex_of_int(i),
        ValView::Rational(q) => complex_of_ratio(q),
        ValView::Complex(c) => c,
        _ => complex_of_int(0),
    }
}

/// The sum of two numbers, of the wider kind of the two.
pub open spec fn number_sum(a: ValView, b: ValView) -> ValView {
    if a is Complex || b is Complex {
        ValView::Complex(complex_add(as_complex(a), as_complex(b)))
    } else if a is Rational || b is Rational {
        ValView::Rational(ratio_add(as_ratio(a), as_ratio(b)))
    } else {
        ValView::Integer(a->Integer_0 + b->Integer_0)
    }
}

/// The product of two numbers, of the wider kind of the two.
pub open spec fn number_product(a: ValView, b: ValView) -> ValView {
    if a is Complex || b is Complex {
        ValView::Complex(complex_mul(as_complex(a), as_complex(b)))
    } else if a is Rational || b is Rational {
        ValView::Rational(ratio_mul(as_ratio(a), as_ratio(b)))
    } else {
        ValView::Integer(a->Integer_0 * b->Integer_0)
    }
}

/// The quotient of two numbers: complex where one of them is, else
/// rational. Division by zero has no result.
pub open spec fn number_quotient(a: ValView, b: ValView) -> Result<ValView, Error> {
    if a is Complex || b is Complex {
        if complex_norm_sqr(as_complex(b)).num == 0 {
            Err(Error::UnsupportedOperation)
        } else {
            Ok(ValView::Complex(complex_div(as_complex(a), as_complex(b))))
        }
    } else if as_ratio(b).num == 0 {
        Err(Error::UnsupportedOperation)
    } else {
        Ok(ValView::Rational(ratio_div(as_ratio(a), as_ratio(b))))
    }
}

/// `-v`. A boolean stays as it is; only numbers and booleans have a
/// negation.
pub open spec fn spec_neg(v: ValView) -> Result<ValView, Error> {
    match v {
        ValView::Integer(i) => Ok(ValView::Integer(-i)),
        ValView::Rational(q) => Ok(ValView::Rational(ratio_neg(q))),
        ValView::Complex(c) => Ok(ValView::Complex(complex_neg(c))),
        ValView::Boolean(b) => Ok(v),
        _ => Err(Error::UnsupportedOperation),
    }
}

/// `l + r`. With a text on either side the other side is joined to it as
/// text. Two booleans give their exclusive or. Numbers, a boolean counting as
/// 0 or 1, give their sum.
pub open spec fn spec_sum(l: ValView, r: ValView) -> Result<ValView, Error> {
    if l is Text {
        Ok(ValView::Text(l->Text_0 + render_val(r)))
    } else if r is Text {
        Ok(ValView::Text(render_val(l) + r->Text_0))
    } else if l is Boolean && r is Boolean {
        Ok(ValView::Boolean(l->Boolean_0 != r->Boolean_0))
    } else {
        match (as_number(l), as_number(r)) {
            (Some(a), Some(b)) => Ok(number_sum(a, b)),
            _ => Err(Error::UnsupportedOperation),
        }
    }
}

pub open spec fn is_num(v: ValView) -> bool {
    v is Integer || v is Rational || v is Complex
}

/// `l - r`: the sum of `l` and `-r`. Texts have no difference.
pub open spec fn spec_diff(l: ValView, r: ValView) -> Result<ValView, Error> {
    if l is Text || r is Text {
        Err(Error::UnsupportedOperation)
    } else {
        match spec_neg(r) {
            Ok(negated) => spec_sum(l, negated),
            Err(e) => Err(e),
        }
    }
}

/// `l * r`. Two booleans give their conjunction. Numbers, a boolean counting
/// as 0 or 1, give their product. Texts have no product.
pub open spec fn spec_prod(l: ValView, r: ValView) -> Result<ValView, Error> {
    if l is Text || r is Text {
        Err(Error::UnsupportedOperation)
    } else if l is Boolean && r is Boolean {
        Ok(ValView::Boolean(l->Boolean_0 && r->Boolean_0))
    } else {
        match (as_number(l), as_number(r)) {
            (Some(a), Some(b)) => Ok(number_product(a, b)),
            _ => Err(Error::UnsupportedOperation),
        }
    }
}

/// `l / r`, for two numbers only: a boolean does not divide and is not
/// divided.
pub open spec fn spec_quot(l: ValView, r: ValView) -> Result<ValView, Error> {
    if is_num(l) && is_num(r) {
        number_quotient(l, r)
    } else {
        Err(Error::UnsupportedOperation)
    }
}

/// Whether an exponent is too large to raise anything to.
pub open spec fn exponent_too_large(e: int) -> bool {
    e >= 0x1_0000_0000 || e <= -0x1_0000_0000
}

/// An integer to an integer power. An exponent too large to raise anything
/// to is refused; only the base 1 to a negative power is 1 whatever the
/// exponent's size.
pub open spec fn integer_power(base: int, e: int) -> Result<ValView, Error> {
    if e == 0 {
        if base == 0 {
            Err(Error::UnsupportedOperation)
        } else {
            Ok(ValView::Integer(1))
        }
    } else if e > 0 {
        if exponent_too_large(e) {
            Err(Error::UnsupportedOperation)
        } else {
            Ok(ValView::Integer(pow(base, e as nat)))
        }
    } else if base == 0 {
        Err(Error::UnsupportedOperation)
    } else if base == 1 {
        Ok(ValView::Integer(1))
    } else if exponent_too_large(e) {
        Err(Error::UnsupportedOperation)
    } else {
        Ok(ValView::Rational(fraction(1, pow(base, abs(e)))))
    }
}

/// A rational to a positive or negative power whose size can be raised to.
pub open spec fn ratio_power(base: Ratio, e: int) -> ValView {
    if e > 0 {
        ValView::Rational(ratio_pow(base, abs(e)))
    } else {
        ValView::Rational(ratio_recip(ratio_pow(base, abs(e))))
    }
}

/// A rational to an integer power. The base -1 gives 1 or -1 with the parity
/// of the exponent, whatever the exponent's size. Of any other base an
/// exponent too large to raise anything to is refused.
pub open spec fn rational_power(base: Ratio, e: int) -> Result<ValView, Error> {
    if e == 0 {
        if base.num == 0 {
            Err(Error::UnsupportedOperation)
        } else {
            Ok(ValView::Integer(1))
        }
    } else if base == ratio_of_int(-1) {
        Ok(
            ValView::Integer(
                if e % 2 == 0 {
                    1
                } else {
                    -1
                },
            ),
        )
    } else if base.num == 0 && e < 0 {
        Err(Error::UnsupportedOperation)
    } else if exponent_too_large(e) {
        Err(Error::UnsupportedOperation)
    } else {
        Ok(ratio_power(base, e))
    }
}

/// `l ^ r`. An integer or a rational is raised to an integer or a boolean; a
/// rational or complex exponent and a complex base have no power yet, nor
/// has a set; nothing else has one.
pub open spec fn spec_power(l: ValView, r: ValView) -> Result<ValView, Error> {
    if l is SetValue {
        if infinite_contains(InfiniteSet::Nat, r) {
            Err(Error::NotYetImplemented)
        } else {
            Err(Error::TypeMismatch)
        }
    } else if l is Text || r is Text {
        Err(Error::UnsupportedOperation)
    } else {
        match l {
            ValView::Integer(base) => match r {
                ValView::Integer(e) => integer_power(base, e),
                ValView::Rational(_) | ValView::Complex(_) => Err(Error::NotYetImplemented),
                ValView::Boolean(b) => Ok(ValView::Integer(pow(base, bool_int(b) as nat))),
                _ => Err(Error::UnsupportedOperation),
            },
            ValView::Rational(base) => match r {
                ValView::Integer(e) => rational_power(base, e),
                ValView::Rational(_) | ValView::Complex(_) => Err(Error::NotYetImplemented),
                ValView::Boolean(b) => Ok(ValView::Rational(ratio_pow(base, bool_int(b) as nat))),
                _ => Err(Error::UnsupportedOperation),
            },
            ValView::Complex(_) => match r {
                ValView::Integer(_) | ValView::Rational(_) | ValView::Complex(_) | ValView::Boolean(
                    _,
                ) => Err(Error::NotYetImplemented),
                _ => Err(Error::UnsupportedOperation),
            },
            _ => Err(Error::UnsupportedOperation),
        }
    }
}


pub(crate) proof fn lemma_pow_nonzero(base: int, e: nat)
    requires
        base != 0,
    ensures
        pow(base, e) != 0,
    decreases e,
{
    reveal(pow);
    if e > 0 {
        lemma_pow_nonzero(base, (e - 1) as nat);
        assert(base * pow(base, (e - 1) as nat) != 0) by (nonlinear_arith)
            requires
                base != 0,
                pow(base, (e - 1) as nat) != 0,
        ;
    }
}

fn to_number(v: &Val) -> (r: Option<Val>)
    ensures
        match r {
            Some(n) => as_number(v@) == Some(n@) && is_num(n@),
            None => as_number(v@) is None,
        },
{
    match v {
        Val::Integer(i) => Some(Val::Integer(i.clone())),
        Val::Rational(q) => Some(Val::Rational(q.clone())),
        Val::Complex(c) => Some(Val::Complex(c.clone())),
        Val::Boolean(b) => Some(Val::Integer(Integer::from_bool(*b))),
        _ => None,
    }
}

fn to_rational(v: &Val) -> (r: Rational)
    ensures
        r@ == as_ratio(v@),
{
    match v {
        Val::Integer(i) => Rational::from_integer(i),
        Val::Rational(q) => q.clone(),
        _ => Rational::from_integer(&Integer::from_u32(0)),
    }
}

fn to_complex(v: &Val) -> (r: Complex)
    ensures
        r@ == as_complex(v@),
{
    match v {
        Val::Integer(i) => Complex::from_integer(i),
        Val::Rational(q) => Complex::from_rational(q),
        Val::Complex(c) => c.clone(),
        _ => Complex::from_integer(&Integer::from_u32(0)),
    }
}

fn is_complex(v: &Val) -> (b: bool)
    ensures
        b == (v@ is Complex),
{
    match v {
        Val::Complex(_) => true,
        _ => false,
    }
}

fn is_rational(v: &Val) -> (b: bool)
    ensures
        b == (v@ is Rational),
{
    match v {
        Val::Rational(_) => true,
        _ => false,
    }
}

fn sum_of_numbers(a: &Val, b: &Val) -> (r: Val)
    requires
        is_num(a@),
        is_num(b@),
    ensures
        r@ == number_sum(a@, b@),
{
    if is_complex(a) || is_complex(b) {
        Val::Complex(to_complex(a).plus(&to_complex(b)))
    } else if is_rational(a) || is_rational(b) {
        Val::Rational(to_rational(a).plus(&to_rational(b)))
    } else {
        match (a, b) {
            (Val::Integer(x), Val::Integer(y)) => Val::Integer(x.plus(y)),
            _ => Val::Boolean(false),
        }
    }
}

fn product_of_numbers(a: &Val, b: &Val) -> (r: Val)
    requires
        is_num(a@),
        is_num(b@),
    ensures
        r@ == number_product(a@, b@),
{
    if is_complex(a) || is_complex(b) {
        Val::Complex(to_complex(a).times(&to_complex(b)))
    } else if is_rational(a) || is_rational(b) {
        Val::Rational(to_rational(a).times(&to_rational(b)))
    } else {
        match (a, b) {
            (Val::Integer(x), Val::Integer(y)) => Val::Integer(x.times(y)),
            _ => Val::Boolean(false),
        }
    }
}

fn quotient_of_numbers(a: &Val, b: &Val) -> (r: Result<Val, Error>)
    requires
        is_num(a@),
        is_num(b@),
    ensures
        val_result_view(r) == number_quotient(a@, b@),
{
    if is_complex(a) || is_complex(b) {
        match to_complex(a).divided_by(&to_complex(b)) {
            Some(c) => Ok(Val::Complex(c)),
            None => Err(Error::UnsupportedOperation),
        }
    } else {
        match to_rational(a).divided_by(&to_rational(b)) {
            Some(q) => Ok(Val::Rational(q)),
            None => Err(Error::UnsupportedOperation),
        }
    }
}

fn power_of_integer(base: &Integer, e: &Integer) -> (r: Result<Val, Error>)
    ensures
        val_result_view(r) == integer_power(base@, e@),
{
    if e.is_zero() {
        if base.is_zero() {
            return Err(Error::UnsupportedOperation);
        } else {
            return Ok(Val::Integer(Integer::from_u32(1)));
        }
    }
    let size = e.magnitude_u32();
    if !e.is_negative() {
        match size {
            Some(n) => Ok(Val::Integer(base.power(n))),
            None => Err(Error::UnsupportedOperation),
        }
    } else if base.is_zero() {
        Err(Error::UnsupportedOperation)
    } else if base.equals(&Integer::from_u32(1)) {
        Ok(Val::Integer(Integer::from_u32(1)))
    } else {
        match size {
            Some(n) => {
                proof {
                    lemma_pow_nonzero(base@, n as nat);
                }
                match Rational::new(&Integer::from_u32(1), &base.power(n)) {
                    Some(q) => Ok(Val::Rational(q)),
                    None => Err(Error::UnsupportedOperation),
                }
            },
            None => Err(Error::UnsupportedOperation),
        }
    }
}

fn power_of_rational(base: &Rational, e: &Integer) -> (r: Result<Val, Error>)
    ensures
        val_result_view(r) == rational_power(base@, e@),
{
    let minus_one = Rational::from_integer(&Integer::from_i64(-1));
    if e.is_zero() {
        if base.is_zero() {
            return Err(Error::UnsupportedOperation);
        } else {
            return Ok(Val::Integer(Integer::from_u32(1)));
        }
    }
    if base.equals(&minus_one) {
        if e.is_even() {
            return Ok(Val::Integer(Integer::from_u32(1)));
        } else {
            return Ok(Val::Integer(Integer::from_i64(-1)));
        }
    }
    let size = e.magnitude_u32();
    if base.is_zero() && e.is_negative() {
        return Err(Error::UnsupportedOperation);
    }
    match size {
        None => Err(Error::UnsupportedOperation),
        Some(n) => {
            let raised = base.power(n);
            if !e.is_negative() {
                Ok(Val::Rational(raised))
            } else {
                proof {
                    lemma_pow_nonzero(base@.num, n as nat);
                }
                match raised.reciprocal() {
                    Some(q) => Ok(Val::Rational(q)),
                    None => Err(Error::UnsupportedOperation),
                }
            }
        },
    }
}

impl Interpreter {
    /// `-right`.
    pub fn execute_neg(right: &Val) -> (r: Result<Val, Error>)
        ensures
            val_result_view(r) == spec_neg(right@),
    {
        match right {
            Val::Integer(i) => Ok(Val::Integer(i.negated())),
            Val::Rational(q) => Ok(Val::Rational(q.negated())),
            Val::Complex(c) => Ok(Val::Complex(c.negated())),
            Val::Boolean(b) => Ok(Val::Boolean(*b)),
            _ => Err(Error::UnsupportedOperation),
        }
    }

    /// `left + right`.
    pub fn execute_sum(left: &Val, right: &Val) -> (r: Result<Val, Error>)
        ensures
            val_result_view(r) == spec_sum(left@, right@),
    {
        if let Val::Text(text) = left {
            let mut out = text.clone();
            out.append(right.display().as_str());
            return Ok(Val::Text(out));
        }
        if let Val::Text(text) = right {
            let mut out = left.display();
            out.append(text.as_str());
            return Ok(Val::Text(out));
        }
        if let (Val::Boolean(a), Val::Boolean(b)) = (left, right) {
            return Ok(Val::Boolean(*a != *b));
        }
        match (to_number(left), to_number(right)) {
            (Some(a), Some(b)) => Ok(sum_of_numbers(&a, &b)),
            _ => Err(Error::UnsupportedOperation),
        }
    }

    /// `left - right`.
    pub fn execute_diff(left: &Val, right: &Val) -> (r: Result<Val, Error>)
        ensures
            val_result_view(r) == spec_diff(left@, right@),
    {
        if left.is_str() || right.is_str() {
            Err(Error::UnsupportedOperation)
        } else {
            match Self::execute_neg(right) {
                Ok(negated) => Self::execute_sum(left, &negated),
                Err(e) => Err(e),
            }
        }
    }

    /// `left * right`.
    pub fn execute_prod(left: &Val, right: &Val) -> (r: Result<Val, Error>)
        ensures
            val_result_view(r) == spec_prod(left@, right@),
    {
        if left.is_str() || right.is_str() {
            return Err(Error::UnsupportedOperation);
        }
        if let (Val::Boolean(a), Val::Boolean(b)) = (left, right) {
            return Ok(Val::Boolean(*a && *b));
        }
        match (to_number(left), to_number(right)) {
            (Some(a), Some(b)) => Ok(product_of_numbers(&a, &b)),
            _ => Err(Error::UnsupportedOperation),
        }
    }

    /// `left / right`.
    pub fn execute_quot(left: &Val, right: &Val) -> (r: Result<Val, Error>)
        ensures
            val_result_view(r) == spec_quot(left@, right@),
    {
        if left.is_num() && right.is_num() {
            quotient_of_numbers(left, right)
        } else {
            Err(Error::UnsupportedOperation)
        }
    }

    /// `left ^ right`.
    pub fn execute_power(left: &Val, right: &Val) -> (r: Result<Val, Error>)
        ensures
            val_result_view(r) == spec_power(left@, right@),
    {
        if left.is_set() {
            if InfiniteSet::Nat.holds(right) {
                return Err(Error::NotYetImplemented);
            } else {
                return Err(Error::TypeMismatch);
            }
        }
        if left.is_str() || right.is_str() {
            return Err(Error::UnsupportedOperation);
        }
        match left {
            Val::Integer(base) => match right {
                Val::Integer(e) => power_of_integer(base, e),
                Val::Rational(_) | Val::Complex(_) => Err(Error::NotYetImplemented),
                Val::Boolean(b) => Ok(Val::Integer(base.power(if *b { 1 } else { 0 }))),
                _ => Err(Error::UnsupportedOperation),
            },
            Val::Rational(base) => match right {
                Val::Integer(e) => power_of_rational(base, e),
                Val::Rational(_) | Val::Complex(_) => Err(Error::NotYetImplemented),
                Val::Boolean(b) => Ok(Val::Rational(base.power(if *b { 1 } else { 0 }))),
                _ => Err(Error::UnsupportedOperation),
            },
            Val::Complex(_) => match right {
                Val::Integer(_) | Val::Rational(_) | Val::Complex(_) | Val::Boolean(_) => Err(
                    Error::NotYetImplemented,
                ),
                _ => Err(Error::UnsupportedOperation),
            },
            _ => Err(Error::UnsupportedOperation),
        }
    }
}

} // verus!
