//! Arbitrary-precision numbers: integers, rationals and complex numbers.
//!
//! Each number is held as plain data (a sign and base 2^32 digits) so that the
//! interpreter can read it, and is viewed as a mathematical `int` or as a
//! fraction of two. The arithmetic itself is done by the `num` crate, behind
//! private functions whose contracts are stated over those views. What comes
//! back from `num` is taken to be in its normal form: digits without a leading
//! zero, no negative zero, fractions in lowest terms over a positive
//! denominator.

use num::bigint::Sign;
use num::pow::Pow;
use num::{BigInt, BigRational};
use std::collections::hash_map::DefaultHasher;
use std::hash::{Hash, Hasher};
use vstd::arithmetic::power::pow;
use vstd::prelude::*;

verus! {

/// The natural number written by `digits`, least significant digit first, in
/// base 2^32.
pub open spec fn digits_value(digits: Seq<u32>) -> nat
    decreases digits.len(),
{
    if digits.len() == 0 {
        0
    } else {
        (digits[0] as nat) + 0x1_0000_0000 * digits_value(digits.skip(1))
    }
}

proof fn lemma_digits_positive(digits: Seq<u32>)
    requires
        digits.len() > 0,
        digits.last() != 0,
    ensures
        digits_value(digits) > 0,
    decreases digits.len(),
{
    if digits.len() > 1 {
        assert(digits.skip(1).last() == digits.last());
        lemma_digits_positive(digits.skip(1));
    }
}

proof fn lemma_digits_small(digits: Seq<u32>)
    requires
        digits.len() > 0 ==> digits.last() != 0,
    ensures
        digits.len() == 0 ==> digits_value(digits) == 0,
        digits.len() == 1 ==> digits_value(digits) == digits[0],
        digits.len() >= 2 ==> digits_value(digits) >= 0x1_0000_0000,
{
    if digits.len() == 1 {
        assert(digits.skip(1).len() == 0);
        assert(digits_value(digits.skip(1)) == 0);
    } else if digits.len() >= 2 {
        assert(digits.skip(1).last() == digits.last());
        lemma_digits_positive(digits.skip(1));
    }
}

/// An integer of any size.
#[derive(Debug)]
pub struct Integer {
    negative: bool,
    digits: Vec<u32>,
}

impl View for Integer {
    type V = int;

    closed spec fn view(&self) -> int {
        if self.negative {
            -(digits_value(self.digits@) as int)
        } else {
            digits_value(self.digits@) as int
        }
    }
}

impl Clone for Integer {
    fn clone(&self) -> (r: Self)
        ensures
            r@ == self@,
    {
        proof {
            use_type_invariant(self);
        }
        Integer { negative: self.negative, digits: self.digits.clone() }
    }
}

impl Integer {
    /// No leading zero digit, and zero is not negative.
    #[verifier::type_invariant]
    spec fn inv(&self) -> bool {
        &&& self.digits@.len() > 0 ==> self.digits@.last() != 0
        &&& self.negative ==> self.digits@.len() > 0
    }

    pub fn from_u32(x: u32) -> (r: Integer)
        ensures
            r@ == x,
    {
        let mut digits: Vec<u32> = Vec::new();
        if x != 0 {
            digits.push(x);
        }
        proof {
            lemma_digits_small(digits@);
        }
        Integer { negative: false, digits }
    }

    pub fn from_i64(x: i64) -> (r: Integer)
        ensures
            r@ == x,
    {
        let magnitude: u64 = if x < 0 {
            ((-(x + 1)) as u64) + 1
        } else {
            x as u64
        };
        let low: u32 = (magnitude % 0x1_0000_0000) as u32;
        let high: u32 = (magnitude / 0x1_0000_0000) as u32;
        let mut digits: Vec<u32> = Vec::new();
        if high != 0 {
            digits.push(low);
            digits.push(high);
            proof {
                assert(digits@.skip(1) =~= seq![high]);
                lemma_digits_small(seq![high]);
            }
        } else if low != 0 {
            digits.push(low);
            proof {
                lemma_digits_small(digits@);
            }
        }
        Integer { negative: x < 0, digits }
    }

    /// The integer 1 for `true` and 0 for `false`.
    pub fn from_bool(b: bool) -> (r: Integer)
        ensures
            r@ == if b { 1int } else { 0int },
    {
        Integer::from_u32(if b { 1 } else { 0 })
    }

    pub fn is_zero(&self) -> (b: bool)
        ensures
            b == (self@ == 0),
    {
        proof {
            use_type_invariant(self);
            if self.digits@.len() > 0 {
                lemma_digits_positive(self.digits@);
            }
        }
        self.digits.len() == 0
    }

    pub fn is_negative(&self) -> (b: bool)
        ensures
            b == (self@ < 0),
    {
        proof {
            use_type_invariant(self);
            if self.negative {
                lemma_digits_positive(self.digits@);
            }
        }
        self.negative
    }

    pub fn is_even(&self) -> (b: bool)
        ensures
            b == (self@ % 2 == 0),
    {
        if self.digits.len() == 0 {
            true
        } else {
            let low: u32 = self.digits[0];
            proof {
                let rest = digits_value(self.digits@.skip(1)) as int;
                assert(digits_value(self.digits@) == low + 0x1_0000_0000 * rest);
                assert((low + 0x1_0000_0000 * rest) % 2 == low % 2) by (nonlinear_arith);
                assert((-(low + 0x1_0000_0000 * rest)) % 2 == low % 2) by (nonlinear_arith);
            }
            low % 2 == 0
        }
    }

    /// The absolute value, where it is below 2^32.
    pub fn magnitude_u32(&self) -> (r: Option<u32>)
        ensures
            match r {
                Some(m) => m == self@ || m == -self@,
                None => self@ >= 0x1_0000_0000 || self@ <= -0x1_0000_0000,
            },
    {
        proof {
            use_type_invariant(self);
            lemma_digits_small(self.digits@);
        }
        if self.digits.len() == 0 {
            Some(0)
        } else if self.digits.len() == 1 {
            Some(self.digits[0])
        } else {
            None
        }
    }

    pub fn plus(&self, other: &Integer) -> (r: Integer)
        ensures
            r@ == self@ + other@,
    {
        integer_add(self, other)
    }

    pub fn times(&self, other: &Integer) -> (r: Integer)
        ensures
            r@ == self@ * other@,
    {
        integer_mul(self, other)
    }

    pub fn negated(&self) -> (r: Integer)
        ensures
            r@ == -self@,
    {
        integer_neg(self)
    }

    pub fn power(&self, e: u32) -> (r: Integer)
        ensures
            r@ == pow(self@, e as nat),
    {
        integer_pow(self, e)
    }

    pub fn equals(&self, other: &Integer) -> (b: bool)
        ensures
            b == (self@ == other@),
    {
        integer_eq(self, other)
    }

    pub fn less_than(&self, other: &Integer) -> (b: bool)
        ensures
            b == (self@ < other@),
    {
        integer_lt(self, other)
    }

    /// Reads a decimal integer: a digit followed by digits and underscores,
    /// which are skipped. `None` for any other text.
    pub fn parse(text: &str) -> (r: Option<Integer>)
        ensures
            match r {
                Some(i) => is_decimal(text@) && i@ == decimal_value(text@),
                None => !is_decimal(text@),
            },
    {
        let n = text.unicode_len();
        if n == 0 {
            return None;
        }
        if !is_digit(text.get_char(0)) {
            return None;
        }
        let mut i: usize = 1;
        while i < n
            invariant
                1 <= i <= n,
                n == text@.len(),
                forall|j: int| 0 <= j < i ==> is_decimal_char(#[trigger] text@[j]),
            decreases n - i,
        {
            let c = text.get_char(i);
            if !is_digit(c) && c != '_' {
                return None;
            }
            i += 1;
        }
        Some(integer_parse(text))
    }

    /// The decimal text of the integer.
    pub fn render(&self) -> (r: String)
        ensures
            r@ == integer_text(self@),
    {
        integer_to_string(self)
    }
}

pub open spec fn is_decimal_digit(c: char) -> bool {
    '0' <= c <= '9'
}

pub open spec fn is_decimal_char(c: char) -> bool {
    is_decimal_digit(c) || c == '_'
}

/// A digit followed by digits and underscores.
pub open spec fn is_decimal(text: Seq<char>) -> bool {
    &&& text.len() > 0
    &&& is_decimal_digit(text[0])
    &&& forall|j: int| 0 <= j < text.len() ==> is_decimal_char(#[trigger] text[j])
}

/// The number that the digits of `text` write in base ten; other characters
/// are skipped.
pub open spec fn decimal_value(text: Seq<char>) -> nat
    decreases text.len(),
{
    if text.len() == 0 {
        0
    } else if is_decimal_digit(text.last()) {
        (10 * decimal_value(text.drop_last()) + (text.last() as u32 - '0' as u32)) as nat
    } else {
        decimal_value(text.drop_last())
    }
}

pub open spec fn digit_char(d: nat) -> char {
    if d == 0 {
        '0'
    } else if d == 1 {
        '1'
    } else if d == 2 {
        '2'
    } else if d == 3 {
        '3'
    } else if d == 4 {
        '4'
    } else if d == 5 {
        '5'
    } else if d == 6 {
        '6'
    } else if d == 7 {
        '7'
    } else if d == 8 {
        '8'
    } else {
        '9'
    }
}

/// A natural number in base ten, without leading zeros.
pub open spec fn natural_text(n: nat) -> Seq<char>
    decreases n,
{
    if n < 10 {
        seq![digit_char(n)]
    } else {
        natural_text(n / 10).push(digit_char(n % 10))
    }
}

/// An integer in base ten, with `-` before a negative one.
pub open spec fn integer_text(value: int) -> Seq<char> {
    if value < 0 {
        seq!['-'] + natural_text((-value) as nat)
    } else {
        natural_text(value as nat)
    }
}

fn is_digit(c: char) -> (b: bool)
    ensures
        b == is_decimal_digit(c),
{
    '0' <= c && c <= '9'
}

/// `BigInt`'s `+`: the sum of two integers.
#[verifier::external_body]
fn integer_add(a: &Integer, b: &Integer) -> (r: Integer)
    ensures
        r@ == a@ + b@,
{
    let x = BigInt::from_slice(if a.negative { Sign::Minus } else { Sign::Plus }, &a.digits);
    let y = BigInt::from_slice(if b.negative { Sign::Minus } else { Sign::Plus }, &b.digits);
    let (sign, digits) = (x + y).to_u32_digits();
    Integer { negative: sign == Sign::Minus, digits }
}

/// `BigInt`'s `*`: the product of two integers.
#[verifier::external_body]
fn integer_mul(a: &Integer, b: &Integer) -> (r: Integer)
    ensures
        r@ == a@ * b@,
{
    let x = BigInt::from_slice(if a.negative { Sign::Minus } else { Sign::Plus }, &a.digits);
    let y = BigInt::from_slice(if b.negative { Sign::Minus } else { Sign::Plus }, &b.digits);
    let (sign, digits) = (x * y).to_u32_digits();
    Integer { negative: sign == Sign::Minus, digits }
}

/// `BigInt`'s unary `-`.
#[verifier::external_body]
fn integer_neg(a: &Integer) -> (r: Integer)
    ensures
        r@ == -a@,
{
    let x = BigInt::from_slice(if a.negative { Sign::Minus } else { Sign::Plus }, &a.digits);
    let (sign, digits) = (-x).to_u32_digits();
    Integer { negative: sign == Sign::Minus, digits }
}

/// `Pow::pow` of a `BigInt` to a `u32` exponent: repeated multiplication, 1
/// for the exponent 0 whatever the base.
#[verifier::external_body]
fn integer_pow(a: &Integer, e: u32) -> (r: Integer)
    ensures
        r@ == pow(a@, e as nat),
{
    let x = BigInt::from_slice(if a.negative { Sign::Minus } else { Sign::Plus }, &a.digits);
    let (sign, digits) = Pow::pow(x, e).to_u32_digits();
    Integer { negative: sign == Sign::Minus, digits }
}

/// `BigInt`'s `==`.
#[verifier::external_body]
fn integer_eq(a: &Integer, b: &Integer) -> (r: bool)
    ensures
        r == (a@ == b@),
{
    let x = BigInt::from_slice(if a.negative { Sign::Minus } else { Sign::Plus }, &a.digits);
    let y = BigInt::from_slice(if b.negative { Sign::Minus } else { Sign::Plus }, &b.digits);
    x == y
}

/// `BigInt`'s `<`.
#[verifier::external_body]
fn integer_lt(a: &Integer, b: &Integer) -> (r: bool)
    ensures
        r == (a@ < b@),
{
    let x = BigInt::from_slice(if a.negative { Sign::Minus } else { Sign::Plus }, &a.digits);
    let y = BigInt::from_slice(if b.negative { Sign::Minus } else { Sign::Plus }, &b.digits);
    x < y
}

/// `BigInt`'s `from_str` on a digit followed by digits and underscores: it
/// accepts such a text, skips the underscores and reads the digits in base ten.
#[verifier::external_body]
fn integer_parse(text: &str) -> (r: Integer)
    requires
        is_decimal(text@),
    ensures
        r@ == decimal_value(text@),
{
    let (sign, digits) = text.parse::<BigInt>().unwrap().to_u32_digits();
    Integer { negative: sign == Sign::Minus, digits }
}

/// `BigInt`'s `to_string`: the digits in base ten, after `-` for a negative
/// integer.
#[verifier::external_body]
fn integer_to_string(a: &Integer) -> (r: String)
    ensures
        r@ == integer_text(a@),
{
    let x = BigInt::from_slice(if a.negative { Sign::Minus } else { Sign::Plus }, &a.digits);
    x.to_string()
}

/// The value of a sign and a magnitude.
pub open spec fn signed_value(negative: bool, magnitude: Seq<u32>) -> int {
    if negative {
        -(digits_value(magnitude) as int)
    } else {
        digits_value(magnitude) as int
    }
}

pub open spec fn abs(n: int) -> nat {
    if n < 0 {
        (-n) as nat
    } else {
        n as nat
    }
}

/// The greatest common divisor; `gcd(0, 0)` is 0.
pub open spec fn gcd(a: nat, b: nat) -> nat
    decreases b,
{
    if b == 0 {
        a
    } else {
        gcd(b, a % b)
    }
}

/// A fraction `num / den` of two integers.
pub ghost struct Ratio {
    pub num: int,
    pub den: int,
}

/// The fraction `n / d` in lowest terms over a positive denominator, for
/// `d != 0`.
pub open spec fn fraction(n: int, d: int) -> Ratio {
    let g = gcd(abs(n), abs(d)) as int;
    if d > 0 {
        Ratio { num: n / g, den: d / g }
    } else {
        Ratio { num: (-n) / g, den: (-d) / g }
    }
}

pub open spec fn ratio_of_int(n: int) -> Ratio {
    Ratio { num: n, den: 1 }
}

pub open spec fn ratio_add(a: Ratio, b: Ratio) -> Ratio {
    fraction(a.num * b.den + b.num * a.den, a.den * b.den)
}

pub open spec fn ratio_neg(a: Ratio) -> Ratio {
    Ratio { num: -a.num, den: a.den }
}

pub open spec fn ratio_sub(a: Ratio, b: Ratio) -> Ratio {
    ratio_add(a, ratio_neg(b))
}

pub open spec fn ratio_mul(a: Ratio, b: Ratio) -> Ratio {
    fraction(a.num * b.num, a.den * b.den)
}

/// The quotient, for `b.num != 0`.
pub open spec fn ratio_div(a: Ratio, b: Ratio) -> Ratio {
    fraction(a.num * b.den, a.den * b.num)
}

/// The reciprocal, for `a.num != 0`.
pub open spec fn ratio_recip(a: Ratio) -> Ratio {
    fraction(a.den, a.num)
}

pub open spec fn ratio_pow(a: Ratio, e: nat) -> Ratio {
    Ratio { num: pow(a.num, e), den: pow(a.den, e) }
}

/// Whether `a < b`, for positive denominators.
pub open spec fn ratio_lt(a: Ratio, b: Ratio) -> bool {
    a.num * b.den < b.num * a.den
}

/// The text of a fraction: the numerator and, unless it is 1, `/` and the
/// denominator.
pub open spec fn ratio_text(a: Ratio) -> Seq<char> {
    if a.den == 1 {
        integer_text(a.num)
    } else {
        integer_text(a.num) + seq!['/'] + integer_text(a.den)
    }
}

/// A rational number of any size, held in lowest terms over a positive
/// denominator.
#[derive(Debug)]
pub struct Rational {
    negative: bool,
    numer: Vec<u32>,
    denom: Vec<u32>,
}

impl View for Rational {
    type V = Ratio;

    closed spec fn view(&self) -> Ratio {
        Ratio { num: signed_value(self.negative, self.numer@), den: digits_value(self.denom@) as int }
    }
}

impl Clone for Rational {
    fn clone(&self) -> (r: Self)
        ensures
            r@ == self@,
    {
        proof {
            use_type_invariant(self);
        }
        Rational { negative: self.negative, numer: self.numer.clone(), denom: self.denom.clone() }
    }
}

impl Rational {
    /// Both magnitudes are without a leading zero digit, zero is not negative,
    /// the denominator is positive, and the fraction is in lowest terms.
    #[verifier::type_invariant]
    spec fn inv(&self) -> bool {
        &&& self.numer@.len() > 0 ==> self.numer@.last() != 0
        &&& self.negative ==> self.numer@.len() > 0
        &&& self.denom@.len() > 0
        &&& self.denom@.last() != 0
        &&& gcd(digits_value(self.numer@), digits_value(self.denom@)) == 1
    }

    pub fn from_integer(i: &Integer) -> (r: Rational)
        ensures
            r@ == ratio_of_int(i@),
    {
        proof {
            use_type_invariant(i);
        }
        let mut denom: Vec<u32> = Vec::new();
        denom.push(1);
        proof {
            lemma_digits_small(denom@);
            let n = digits_value(i.digits@);
            assert(gcd(n, 1) == gcd(1, n % 1));
            assert(gcd(1, 0) == 1);
        }
        Rational { negative: i.negative, numer: i.digits.clone(), denom }
    }

    /// The fraction `numer / denom`; `None` where `denom` is zero.
    pub fn new(numer: &Integer, denom: &Integer) -> (r: Option<Rational>)
        ensures
            match r {
                Some(q) => denom@ != 0 && q@ == fraction(numer@, denom@),
                None => denom@ == 0,
            },
    {
        if denom.is_zero() {
            None
        } else {
            Some(rational_new(numer, denom))
        }
    }

    pub fn numerator(&self) -> (r: Integer)
        ensures
            r@ == self@.num,
    {
        proof {
            use_type_invariant(self);
        }
        Integer { negative: self.negative, digits: self.numer.clone() }
    }

    pub fn denominator(&self) -> (r: Integer)
        ensures
            r@ == self@.den,
    {
        proof {
            use_type_invariant(self);
        }
        Integer { negative: false, digits: self.denom.clone() }
    }

    /// Whether the denominator is 1.
    pub fn is_integer(&self) -> (b: bool)
        ensures
            b == (self@.den == 1),
    {
        proof {
            use_type_invariant(self);
            lemma_digits_small(self.denom@);
        }
        self.denom.len() == 1 && self.denom[0] == 1
    }

    pub fn is_negative(&self) -> (b: bool)
        ensures
            b == (self@.num < 0),
    {
        proof {
            use_type_invariant(self);
            if self.negative {
                lemma_digits_positive(self.numer@);
            }
        }
        self.negative
    }

    pub fn is_zero(&self) -> (b: bool)
        ensures
            b == (self@.num == 0),
    {
        proof {
            use_type_invariant(self);
            if self.numer@.len() > 0 {
                lemma_digits_positive(self.numer@);
            }
        }
        self.numer.len() == 0
    }

    pub fn plus(&self, other: &Rational) -> (r: Rational)
        ensures
            r@ == ratio_add(self@, other@),
    {
        rational_add(self, other)
    }

    pub fn minus(&self, other: &Rational) -> (r: Rational)
        ensures
            r@ == ratio_sub(self@, other@),
    {
        let negated = rational_neg(other);
        rational_add(self, &negated)
    }

    pub fn times(&self, other: &Rational) -> (r: Rational)
        ensures
            r@ == ratio_mul(self@, other@),
    {
        rational_mul(self, other)
    }

    /// The quotient; `None` where `other` is zero.
    pub fn divided_by(&self, other: &Rational) -> (r: Option<Rational>)
        ensures
            match r {
                Some(q) => other@.num != 0 && q@ == ratio_div(self@, other@),
                None => other@.num == 0,
            },
    {
        if other.is_zero() {
            None
        } else {
            Some(rational_div(self, other))
        }
    }

    pub fn negated(&self) -> (r: Rational)
        ensures
            r@ == ratio_neg(self@),
    {
        rational_neg(self)
    }

    pub fn power(&self, e: u32) -> (r: Rational)
        ensures
            r@ == ratio_pow(self@, e as nat),
    {
        rational_pow(self, e)
    }

    /// The reciprocal; `None` for zero.
    pub fn reciprocal(&self) -> (r: Option<Rational>)
        ensures
            match r {
                Some(q) => self@.num != 0 && q@ == ratio_recip(self@),
                None => self@.num == 0,
            },
    {
        if self.is_zero() {
            None
        } else {
            Some(rational_recip(self))
        }
    }

    pub fn equals(&self, other: &Rational) -> (b: bool)
        ensures
            b == (self@ == other@),
    {
        rational_eq(self, other)
    }

    pub fn less_than(&self, other: &Rational) -> (b: bool)
        ensures
            b == ratio_lt(self@, other@),
    {
        rational_lt(self, other)
    }

    /// The text of the fraction.
    pub fn render(&self) -> (r: String)
        ensures
            r@ == ratio_text(self@),
    {
        rational_to_string(self)
    }
}

/// `Ratio::new`: the fraction of two integers, in lowest terms over a positive
/// denominator. It panics on a zero denominator.
#[verifier::external_body]
fn rational_new(n: &Integer, d: &Integer) -> (r: Rational)
    requires
        d@ != 0,
    ensures
        r@ == fraction(n@, d@),
{
    let x = BigInt::from_slice(if n.negative { Sign::Minus } else { Sign::Plus }, &n.digits);
    let y = BigInt::from_slice(if d.negative { Sign::Minus } else { Sign::Plus }, &d.digits);
    let z = BigRational::new(x, y);
    let (sign, numer) = z.numer().to_u32_digits();
    Rational { negative: sign == Sign::Minus, numer, denom: z.denom().to_u32_digits().1 }
}

/// `Ratio`'s `+`: the sum, in lowest terms.
#[verifier::external_body]
fn rational_add(a: &Rational, b: &Rational) -> (r: Rational)
    ensures
        r@ == ratio_add(a@, b@),
{
    let sa = if a.negative { Sign::Minus } else { Sign::Plus };
    let sb = if b.negative { Sign::Minus } else { Sign::Plus };
    let x = BigRational::new_raw(BigInt::from_slice(sa, &a.numer), BigInt::from_slice(Sign::Plus, &a.denom));
    let y = BigRational::new_raw(BigInt::from_slice(sb, &b.numer), BigInt::from_slice(Sign::Plus, &b.denom));
    let z = x + y;
    let (sign, numer) = z.numer().to_u32_digits();
    Rational { negative: sign == Sign::Minus, numer, denom: z.denom().to_u32_digits().1 }
}

/// `Ratio`'s `*`: the product, in lowest terms.
#[verifier::external_body]
fn rational_mul(a: &Rational, b: &Rational) -> (r: Rational)
    ensures
        r@ == ratio_mul(a@, b@),
{
    let sa = if a.negative { Sign::Minus } else { Sign::Plus };
    let sb = if b.negative { Sign::Minus } else { Sign::Plus };
    let x = BigRational::new_raw(BigInt::from_slice(sa, &a.numer), BigInt::from_slice(Sign::Plus, &a.denom));
    let y = BigRational::new_raw(BigInt::from_slice(sb, &b.numer), BigInt::from_slice(Sign::Plus, &b.denom));
    let z = x * y;
    let (sign, numer) = z.numer().to_u32_digits();
    Rational { negative: sign == Sign::Minus, numer, denom: z.denom().to_u32_digits().1 }
}

/// `Ratio`'s `/`: the quotient, in lowest terms over a positive denominator.
/// It panics on a zero divisor.
#[verifier::external_body]
fn rational_div(a: &Rational, b: &Rational) -> (r: Rational)
    requires
        b@.num != 0,
    ensures
        r@ == ratio_div(a@, b@),
{
    let sa = if a.negative { Sign::Minus } else { Sign::Plus };
    let sb = if b.negative { Sign::Minus } else { Sign::Plus };
    let x = BigRational::new_raw(BigInt::from_slice(sa, &a.numer), BigInt::from_slice(Sign::Plus, &a.denom));
    let y = BigRational::new_raw(BigInt::from_slice(sb, &b.numer), BigInt::from_slice(Sign::Plus, &b.denom));
    let z = x / y;
    let (sign, numer) = z.numer().to_u32_digits();
    Rational { negative: sign == Sign::Minus, numer, denom: z.denom().to_u32_digits().1 }
}

/// `Ratio`'s unary `-`: the numerator negated.
#[verifier::external_body]
fn rational_neg(a: &Rational) -> (r: Rational)
    ensures
        r@ == ratio_neg(a@),
{
    let sa = if a.negative { Sign::Minus } else { Sign::Plus };
    let x = BigRational::new_raw(BigInt::from_slice(sa, &a.numer), BigInt::from_slice(Sign::Plus, &a.denom));
    let z = -x;
    let (sign, numer) = z.numer().to_u32_digits();
    Rational { negative: sign == Sign::Minus, numer, denom: z.denom().to_u32_digits().1 }
}

/// `Pow::pow` of a `Ratio` to a `u32` exponent: numerator and denominator
/// raised to it, which leaves a fraction in lowest terms so.
#[verifier::external_body]
fn rational_pow(a: &Rational, e: u32) -> (r: Rational)
    ensures
        r@ == ratio_pow(a@, e as nat),
{
    let sa = if a.negative { Sign::Minus } else { Sign::Plus };
    let x = BigRational::new_raw(BigInt::from_slice(sa, &a.numer), BigInt::from_slice(Sign::Plus, &a.denom));
    let z = Pow::pow(x, e);
    let (sign, numer) = z.numer().to_u32_digits();
    Rational { negative: sign == Sign::Minus, numer, denom: z.denom().to_u32_digits().1 }
}

/// `Ratio::recip`: numerator and denominator exchanged, the denominator kept
/// positive. It panics on zero.
#[verifier::external_body]
fn rational_recip(a: &Rational) -> (r: Rational)
    requires
        a@.num != 0,
    ensures
        r@ == ratio_recip(a@),
{
    let sa = if a.negative { Sign::Minus } else { Sign::Plus };
    let x = BigRational::new_raw(BigInt::from_slice(sa, &a.numer), BigInt::from_slice(Sign::Plus, &a.denom));
    let z = x.recip();
    let (sign, numer) = z.numer().to_u32_digits();
    Rational { negative: sign == Sign::Minus, numer, denom: z.denom().to_u32_digits().1 }
}

/// `Ratio`'s `==`: on fractions in lowest terms over positive denominators,
/// whether numerators and denominators agree.
#[verifier::external_body]
fn rational_eq(a: &Rational, b: &Rational) -> (r: bool)
    ensures
        r == (a@ == b@),
{
    let sa = if a.negative { Sign::Minus } else { Sign::Plus };
    let sb = if b.negative { Sign::Minus } else { Sign::Plus };
    let x = BigRational::new_raw(BigInt::from_slice(sa, &a.numer), BigInt::from_slice(Sign::Plus, &a.denom));
    let y = BigRational::new_raw(BigInt::from_slice(sb, &b.numer), BigInt::from_slice(Sign::Plus, &b.denom));
    x == y
}

/// `Ratio`'s `<`.
#[verifier::external_body]
fn rational_lt(a: &Rational, b: &Rational) -> (r: bool)
    ensures
        r == ratio_lt(a@, b@),
{
    let sa = if a.negative { Sign::Minus } else { Sign::Plus };
    let sb = if b.negative { Sign::Minus } else { Sign::Plus };
    let x = BigRational::new_raw(BigInt::from_slice(sa, &a.numer), BigInt::from_slice(Sign::Plus, &a.denom));
    let y = BigRational::new_raw(BigInt::from_slice(sb, &b.numer), BigInt::from_slice(Sign::Plus, &b.denom));
    x < y
}

/// `Ratio`'s `to_string`: the numerator and, unless it is 1, `/` and the
/// denominator.
#[verifier::external_body]
fn rational_to_string(a: &Rational) -> (r: String)
    ensures
        r@ == ratio_text(a@),
{
    let sa = if a.negative { Sign::Minus } else { Sign::Plus };
    let x = BigRational::new_raw(BigInt::from_slice(sa, &a.numer), BigInt::from_slice(Sign::Plus, &a.denom));
    x.to_string()
}

/// A complex number as a pair of fractions.
pub ghost struct ComplexView {
    pub re: Ratio,
    pub im: Ratio,
}

pub open spec fn complex_of_ratio(q: Ratio) -> ComplexView {
    ComplexView { re: q, im: ratio_of_int(0) }
}

pub open spec fn complex_of_int(n: int) -> ComplexView {
    complex_of_ratio(ratio_of_int(n))
}

pub open spec fn complex_add(a: ComplexView, b: ComplexView) -> ComplexView {
    ComplexView { re: ratio_add(a.re, b.re), im: ratio_add(a.im, b.im) }
}

pub open spec fn complex_neg(a: ComplexView) -> ComplexView {
    ComplexView { re: ratio_neg(a.re), im: ratio_neg(a.im) }
}

pub open spec fn complex_mul(a: ComplexView, b: ComplexView) -> ComplexView {
    ComplexView {
        re: ratio_sub(ratio_mul(a.re, b.re), ratio_mul(a.im, b.im)),
        im: ratio_add(ratio_mul(a.re, b.im), ratio_mul(a.im, b.re)),
    }
}

/// The square of the absolute value.
pub open spec fn complex_norm_sqr(a: ComplexView) -> Ratio {
    ratio_add(ratio_mul(a.re, a.re), ratio_mul(a.im, a.im))
}

/// The quotient, for a divisor whose squared absolute value is not zero.
pub open spec fn complex_div(a: ComplexView, b: ComplexView) -> ComplexView {
    ComplexView {
        re: ratio_div(
            ratio_add(ratio_mul(a.re, b.re), ratio_mul(a.im, b.im)),
            complex_norm_sqr(b),
        ),
        im: ratio_div(
            ratio_sub(ratio_mul(a.im, b.re), ratio_mul(a.re, b.im)),
            complex_norm_sqr(b),
        ),
    }
}

/// The text of a complex number: the real part, `+` or `-`, the absolute value
/// of the imaginary part, and `i`.
pub open spec fn complex_text(a: ComplexView) -> Seq<char> {
    ratio_text(a.re) + (if a.im.num < 0 {
        seq!['-'] + ratio_text(ratio_neg(a.im))
    } else {
        seq!['+'] + ratio_text(a.im)
    }) + seq!['i']
}

/// A complex number with rational parts.
#[derive(Debug)]
pub struct Complex {
    pub re: Rational,
    pub im: Rational,
}

impl View for Complex {
    type V = ComplexView;

    open spec fn view(&self) -> ComplexView {
        ComplexView { re: self.re@, im: self.im@ }
    }
}

impl Clone for Complex {
    fn clone(&self) -> (r: Self)
        ensures
            r@ == self@,
    {
        Complex { re: self.re.clone(), im: self.im.clone() }
    }
}

impl Complex {
    pub fn new(re: Rational, im: Rational) -> (r: Complex)
        ensures
            r@ == (ComplexView { re: re@, im: im@ }),
    {
        Complex { re, im }
    }

    pub fn from_rational(q: &Rational) -> (r: Complex)
        ensures
            r@ == complex_of_ratio(q@),
    {
        Complex { re: q.clone(), im: Rational::from_integer(&Integer::from_u32(0)) }
    }

    pub fn from_integer(i: &Integer) -> (r: Complex)
        ensures
            r@ == complex_of_int(i@),
    {
        Complex {
            re: Rational::from_integer(i),
            im: Rational::from_integer(&Integer::from_u32(0)),
        }
    }

    pub fn plus(&self, other: &Complex) -> (r: Complex)
        ensures
            r@ == complex_add(self@, other@),
    {
        Complex { re: self.re.plus(&other.re), im: self.im.plus(&other.im) }
    }

    pub fn negated(&self) -> (r: Complex)
        ensures
            r@ == complex_neg(self@),
    {
        Complex { re: self.re.negated(), im: self.im.negated() }
    }

    pub fn times(&self, other: &Complex) -> (r: Complex)
        ensures
            r@ == complex_mul(self@, other@),
    {
        let re = self.re.times(&other.re).minus(&self.im.times(&other.im));
        let im = self.re.times(&other.im).plus(&self.im.times(&other.re));
        Complex { re, im }
    }

    /// The quotient; `None` where the squared absolute value of `other` is
    /// zero.
    pub fn divided_by(&self, other: &Complex) -> (r: Option<Complex>)
        ensures
            match r {
                Some(q) => complex_norm_sqr(other@).num != 0 && q@ == complex_div(self@, other@),
                None => complex_norm_sqr(other@).num == 0,
            },
    {
        let norm = other.re.times(&other.re).plus(&other.im.times(&other.im));
        let re = self.re.times(&other.re).plus(&self.im.times(&other.im));
        let im = self.im.times(&other.re).minus(&self.re.times(&other.im));
        match (re.divided_by(&norm), im.divided_by(&norm)) {
            (Some(re), Some(im)) => Some(Complex { re, im }),
            _ => None,
        }
    }

    pub fn equals(&self, other: &Complex) -> (b: bool)
        ensures
            b == (self@ == other@),
    {
        self.re.equals(&other.re) && self.im.equals(&other.im)
    }

    /// Whether the imaginary part is zero.
    pub fn is_real(&self) -> (b: bool)
        ensures
            b == (self@.im.num == 0),
    {
        self.im.is_zero()
    }

    /// The text of the number.
    pub fn render(&self) -> (r: String)
        ensures
            r@ == complex_text(self@),
    {
        let mut text = self.re.render();
        if self.im.is_negative() {
            text.append("-");
            text.append(self.im.negated().render().as_str());
        } else {
            text.append("+");
            text.append(self.im.render().as_str());
        }
        text.append("i");
        proof {
            reveal_strlit("-");
            reveal_strlit("+");
            reveal_strlit("i");
            assert("-"@ =~= seq!['-']);
            assert("+"@ =~= seq!['+']);
            assert("i"@ =~= seq!['i']);
            assert(text@ =~= complex_text(self@));
        }
        text
    }
}

/// The hash that `num` gives a complex number with rational parts, through
/// a hasher made by `DefaultHasher::new`.
pub uninterp spec fn number_hash(value: ComplexView) -> u64;

/// `Hash` of `num`'s complex number, fed to a hasher that std makes by
/// `DefaultHasher::new`, which starts from fixed keys: the result is
/// `number_hash` of the number.
#[verifier::external_body]
fn hash_complex(c: &Complex) -> (r: u64)
    ensures
        r == number_hash(c@),
{
    let sr = if c.re.negative { Sign::Minus } else { Sign::Plus };
    let si = if c.im.negative { Sign::Minus } else { Sign::Plus };
    let re = BigRational::new_raw(BigInt::from_slice(sr, &c.re.numer), BigInt::from_slice(Sign::Plus, &c.re.denom));
    let im = BigRational::new_raw(BigInt::from_slice(si, &c.im.numer), BigInt::from_slice(Sign::Plus, &c.im.denom));
    let mut hasher = DefaultHasher::new();
    num::Complex::new(re, im).hash(&mut hasher);
    hasher.finish()
}

impl Complex {
    /// The hash of the number.
    pub fn hash_val(&self) -> (r: u64)
        ensures
            r == number_hash(self@),
    {
        hash_complex(self)
    }
}

} // verus!
