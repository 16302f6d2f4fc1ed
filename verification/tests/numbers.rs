use mathscript::number::{Complex, Integer, Rational};
use num::bigint::Sign;
use num::{BigInt, BigRational};
use std::collections::hash_map::DefaultHasher;
use std::hash::{Hash, Hasher};

fn whole(x: i64) -> Integer {
    Integer::from_i64(x)
}

fn rat(n: i64, d: i64) -> Rational {
    Rational::new(&whole(n), &whole(d)).unwrap()
}

#[test]
fn integer_from_i64_renders() {
    assert_eq!(whole(0).render(), "0");
    assert_eq!(whole(-7).render(), "-7");
    assert_eq!(whole(i64::MAX).render(), i64::MAX.to_string());
    assert_eq!(whole(i64::MIN).render(), i64::MIN.to_string());
    assert_eq!(Integer::from_u32(u32::MAX).render(), "4294967295");
}

#[test]
fn integer_parse_reads_decimals() {
    assert_eq!(Integer::parse("12345678901234567890123").unwrap().render(), "12345678901234567890123");
    assert_eq!(Integer::parse("1_000").unwrap().render(), "1000");
    assert!(Integer::parse("").is_none());
    assert!(Integer::parse("_1").is_none());
    assert!(Integer::parse("-1").is_none());
    assert!(Integer::parse("12a").is_none());
}

#[test]
fn integer_arithmetic_agrees_with_num() {
    let a = Integer::parse("340282366920938463463374607431768211456").unwrap();
    let b = whole(-3);
    let big: BigInt = "340282366920938463463374607431768211456".parse().unwrap();
    assert_eq!(a.plus(&b).render(), (&big + BigInt::from(-3)).to_string());
    assert_eq!(a.times(&b).render(), (&big * BigInt::from(-3)).to_string());
    assert_eq!(a.negated().render(), (-&big).to_string());
    assert_eq!(b.power(5).render(), "-243");
    assert_eq!(whole(0).power(0).render(), "1");
    assert!(a.equals(&a.plus(&whole(0))));
    assert!(!a.equals(&b));
    assert!(b.less_than(&a));
    assert!(!a.less_than(&b));
}

#[test]
fn integer_readings() {
    assert!(whole(0).is_zero());
    assert!(!whole(1).is_zero());
    assert!(whole(-1).is_negative());
    assert!(!whole(0).is_negative());
    assert!(whole(4).is_even());
    assert!(!whole(-3).is_even());
    assert!(whole(0).is_even());
    assert_eq!(whole(-5).magnitude_u32(), Some(5));
    assert_eq!(whole(0).magnitude_u32(), Some(0));
    assert_eq!(whole(4294967295).magnitude_u32(), Some(4294967295));
    assert_eq!(whole(4294967296).magnitude_u32(), None);
    assert_eq!(whole(-4294967296).magnitude_u32(), None);
    assert_eq!(Integer::from_bool(true).render(), "1");
    assert_eq!(Integer::from_bool(false).render(), "0");
}

#[test]
fn rational_is_kept_in_lowest_terms() {
    let q = rat(6, -4);
    assert_eq!(q.render(), "-3/2");
    assert_eq!(q.numerator().render(), "-3");
    assert_eq!(q.denominator().render(), "2");
    assert!(Rational::new(&whole(1), &whole(0)).is_none());
    assert_eq!(rat(0, 5).render(), "0");
    assert_eq!(rat(4, 2).render(), "2");
}

#[test]
fn rational_arithmetic() {
    let half = rat(1, 2);
    let third = rat(1, 3);
    assert_eq!(half.plus(&third).render(), "5/6");
    assert_eq!(half.minus(&third).render(), "1/6");
    assert_eq!(half.times(&third).render(), "1/6");
    assert_eq!(half.divided_by(&third).unwrap().render(), "3/2");
    assert!(half.divided_by(&rat(0, 1)).is_none());
    assert_eq!(half.negated().render(), "-1/2");
    assert_eq!(rat(-2, 3).power(3).render(), "-8/27");
    assert_eq!(rat(-2, 3).power(0).render(), "1");
    assert_eq!(rat(-2, 3).reciprocal().unwrap().render(), "-3/2");
    assert!(rat(0, 1).reciprocal().is_none());
    assert!(half.equals(&rat(2, 4)));
    assert!(!half.equals(&third));
    assert!(third.less_than(&half));
    assert!(!half.less_than(&third));
    assert!(rat(-1, 2).less_than(&third));
}

#[test]
fn rational_readings() {
    assert!(rat(4, 2).is_integer());
    assert!(!rat(1, 2).is_integer());
    assert!(rat(-1, 2).is_negative());
    assert!(!rat(1, 2).is_negative());
    assert!(rat(0, 3).is_zero());
    assert!(!rat(1, 3).is_zero());
    assert_eq!(Rational::from_integer(&whole(-9)).render(), "-9");
}

#[test]
fn rational_agrees_with_num() {
    let a = BigRational::new(BigInt::from(-7), BigInt::from(12));
    let b = BigRational::new(BigInt::from(5), BigInt::from(18));
    let x = rat(-7, 12);
    let y = rat(5, 18);
    assert_eq!(x.plus(&y).render(), (&a + &b).to_string());
    assert_eq!(x.times(&y).render(), (&a * &b).to_string());
    assert_eq!(x.divided_by(&y).unwrap().render(), (&a / &b).to_string());
    assert_eq!(x.less_than(&y), a < b);
}

#[test]
fn complex_arithmetic() {
    let a = Complex::new(rat(1, 2), rat(3, 4));
    let b = Complex::new(rat(-2, 1), rat(1, 3));
    assert_eq!(a.render(), "1/2+3/4i");
    assert_eq!(b.render(), "-2+1/3i");
    assert_eq!(a.plus(&b).render(), "-3/2+13/12i");
    assert_eq!(a.negated().render(), "-1/2-3/4i");
    assert_eq!(a.times(&b).render(), "-5/4-4/3i");
    assert!(a.divided_by(&Complex::from_integer(&whole(0))).is_none());
    let q = a.divided_by(&b).unwrap();
    assert!(q.times(&b).equals(&a));
    assert!(!a.is_real());
    assert!(Complex::from_rational(&rat(1, 2)).is_real());
    assert!(Complex::from_integer(&whole(3)).equals(&Complex::new(rat(3, 1), rat(0, 1))));
}

#[test]
fn complex_agrees_with_num() {
    let a = num::Complex::new(
        BigRational::new(BigInt::from(1), BigInt::from(2)),
        BigRational::new(BigInt::from(-3), BigInt::from(4)),
    );
    let b = num::Complex::new(
        BigRational::new(BigInt::from(5), BigInt::from(7)),
        BigRational::new(BigInt::from(2), BigInt::from(9)),
    );
    let x = Complex::new(rat(1, 2), rat(-3, 4));
    let y = Complex::new(rat(5, 7), rat(2, 9));
    assert_eq!(x.render(), a.to_string());
    assert_eq!(x.plus(&y).render(), (a.clone() + b.clone()).to_string());
    assert_eq!(x.times(&y).render(), (a.clone() * b.clone()).to_string());
    assert_eq!(x.divided_by(&y).unwrap().render(), (a.clone() / b.clone()).to_string());
    assert_eq!(x.negated().render(), (-a.clone()).to_string());
}

#[test]
fn complex_hash_is_that_of_num() {
    let a = num::Complex::new(
        BigRational::new(BigInt::from(1), BigInt::from(2)),
        BigRational::new(BigInt::from(-3), BigInt::from(4)),
    );
    let mut hasher = DefaultHasher::new();
    a.hash(&mut hasher);
    let x = Complex::new(rat(1, 2), rat(-3, 4));
    assert_eq!(x.hash_val(), hasher.finish());
    assert_ne!(x.hash_val(), Complex::new(rat(1, 2), rat(3, 4)).hash_val());
}

#[test]
fn sign_of_zero_from_num_is_not_minus() {
    assert_eq!(BigInt::from(0).to_u32_digits(), (Sign::NoSign, vec![]));
    assert!(!whole(5).plus(&whole(-5)).is_negative());
    assert!(whole(5).plus(&whole(-5)).is_zero());
}
