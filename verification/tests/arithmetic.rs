use mathscript::error::Error;
use mathscript::interpreter::Interpreter;
use mathscript::number::{Complex, Integer, Rational};
use mathscript::set::{CanonSet, FiniteSet};
use mathscript::value::{Tuple, Val};
use std::rc::Rc;

fn whole(x: i64) -> Val {
    Val::Integer(Integer::from_i64(x))
}

fn rat(n: i64, d: i64) -> Val {
    Val::Rational(Rational::new(&Integer::from_i64(n), &Integer::from_i64(d)).unwrap())
}

fn complex(re: (i64, i64), im: (i64, i64)) -> Val {
    Val::Complex(Complex::new(
        Rational::new(&Integer::from_i64(re.0), &Integer::from_i64(re.1)).unwrap(),
        Rational::new(&Integer::from_i64(im.0), &Integer::from_i64(im.1)).unwrap(),
    ))
}

fn text(s: &str) -> Val {
    Val::Text(s.to_string())
}

fn truth(b: bool) -> Val {
    Val::Boolean(b)
}

fn huge() -> Val {
    Val::Integer(Integer::parse("4294967296").unwrap())
}

fn minus_huge() -> Val {
    Val::Integer(Integer::parse("4294967296").unwrap().negated())
}

fn shown(r: Result<Val, Error>) -> String {
    let v = r.expect("a value");
    let kind = match &v {
        Val::Integer(_) => "int",
        Val::Rational(_) => "rat",
        Val::Complex(_) => "complex",
        Val::Text(_) => "text",
        Val::Boolean(_) => "bool",
        Val::Tuple(_) => "tuple",
        Val::SetValue(_) => "set",
        Val::Function(_) => "function",
    };
    format!("{} {}", kind, v.display())
}

fn failure(r: Result<Val, Error>) -> Error {
    match r {
        Ok(v) => panic!("unexpected value {}", v.display()),
        Err(e) => e,
    }
}

#[test]
fn negation() {
    assert_eq!(shown(Interpreter::execute_neg(&whole(5))), "int -5");
    assert_eq!(shown(Interpreter::execute_neg(&rat(1, 2))), "rat -1/2");
    assert_eq!(shown(Interpreter::execute_neg(&complex((1, 1), (2, 1)))), "complex -1-2i");
    assert_eq!(shown(Interpreter::execute_neg(&truth(true))), "bool true");
    assert_eq!(failure(Interpreter::execute_neg(&text("a"))), Error::UnsupportedOperation);
    assert_eq!(failure(Interpreter::execute_neg(&Val::Tuple(Tuple(vec![])))), Error::UnsupportedOperation);
}

#[test]
fn sums_take_the_wider_kind() {
    assert_eq!(shown(Interpreter::execute_sum(&whole(1), &whole(2))), "int 3");
    assert_eq!(shown(Interpreter::execute_sum(&whole(1), &rat(1, 2))), "rat 3/2");
    assert_eq!(shown(Interpreter::execute_sum(&rat(1, 2), &whole(1))), "rat 3/2");
    assert_eq!(shown(Interpreter::execute_sum(&rat(1, 2), &rat(1, 2))), "rat 1");
    assert_eq!(shown(Interpreter::execute_sum(&rat(1, 2), &complex((1, 1), (0, 1)))), "complex 3/2+0i");
    assert_eq!(shown(Interpreter::execute_sum(&complex((1, 1), (1, 1)), &whole(2))), "complex 3+1i");
    assert_eq!(shown(Interpreter::execute_sum(&whole(2), &complex((1, 1), (1, 1)))), "complex 3+1i");
    assert_eq!(shown(Interpreter::execute_sum(&complex((1, 1), (1, 1)), &complex((1, 2), (-1, 1)))), "complex 3/2+0i");
}

#[test]
fn sums_with_booleans() {
    assert_eq!(shown(Interpreter::execute_sum(&whole(1), &truth(true))), "int 2");
    assert_eq!(shown(Interpreter::execute_sum(&truth(false), &whole(1))), "int 1");
    assert_eq!(shown(Interpreter::execute_sum(&rat(1, 2), &truth(true))), "rat 3/2");
    assert_eq!(shown(Interpreter::execute_sum(&truth(true), &complex((0, 1), (1, 1)))), "complex 1+1i");
    assert_eq!(shown(Interpreter::execute_sum(&truth(true), &truth(true))), "bool false");
    assert_eq!(shown(Interpreter::execute_sum(&truth(true), &truth(false))), "bool true");
    assert_eq!(shown(Interpreter::execute_sum(&truth(false), &truth(false))), "bool false");
}

#[test]
fn sums_with_texts_join() {
    assert_eq!(shown(Interpreter::execute_sum(&text("a"), &text("b"))), "text ab");
    assert_eq!(shown(Interpreter::execute_sum(&text("a"), &rat(1, 2))), "text a1/2");
    assert_eq!(shown(Interpreter::execute_sum(&whole(7), &text("b"))), "text 7b");
    assert_eq!(shown(Interpreter::execute_sum(&text("t"), &Val::Tuple(Tuple(vec![whole(1), whole(2)])))), "text t[1, 2]");
    assert_eq!(shown(Interpreter::execute_sum(&truth(false), &text("!"))), "text false!");
}

#[test]
fn sums_of_other_values_fail() {
    let tuple = Val::Tuple(Tuple(vec![]));
    assert_eq!(failure(Interpreter::execute_sum(&tuple, &whole(1))), Error::UnsupportedOperation);
    assert_eq!(failure(Interpreter::execute_sum(&whole(1), &tuple)), Error::UnsupportedOperation);
    let set = Val::SetValue(Rc::new(CanonSet::Finite(FiniteSet::new(vec![]))));
    assert_eq!(failure(Interpreter::execute_sum(&set, &truth(true))), Error::UnsupportedOperation);
}

#[test]
fn differences() {
    assert_eq!(shown(Interpreter::execute_diff(&whole(1), &whole(3))), "int -2");
    assert_eq!(shown(Interpreter::execute_diff(&whole(1), &rat(1, 2))), "rat 1/2");
    assert_eq!(shown(Interpreter::execute_diff(&complex((1, 1), (1, 1)), &rat(1, 2))), "complex 1/2+1i");
    assert_eq!(failure(Interpreter::execute_diff(&text("a"), &whole(1))), Error::UnsupportedOperation);
    assert_eq!(failure(Interpreter::execute_diff(&whole(1), &text("a"))), Error::UnsupportedOperation);
    assert_eq!(shown(Interpreter::execute_diff(&truth(true), &whole(1))), "int 0");
    assert_eq!(shown(Interpreter::execute_diff(&truth(true), &truth(true))), "bool false");
    assert_eq!(shown(Interpreter::execute_diff(&rat(1, 2), &truth(false))), "rat 1/2");
    assert_eq!(failure(Interpreter::execute_diff(&whole(1), &Val::Tuple(Tuple(vec![])))), Error::UnsupportedOperation);
    assert_eq!(failure(Interpreter::execute_diff(&Val::Tuple(Tuple(vec![])), &whole(1))), Error::UnsupportedOperation);
}

#[test]
fn products() {
    assert_eq!(shown(Interpreter::execute_prod(&whole(3), &whole(-4))), "int -12");
    assert_eq!(shown(Interpreter::execute_prod(&whole(3), &rat(1, 6))), "rat 1/2");
    assert_eq!(shown(Interpreter::execute_prod(&rat(2, 3), &rat(3, 2))), "rat 1");
    assert_eq!(shown(Interpreter::execute_prod(&complex((0, 1), (1, 1)), &complex((0, 1), (1, 1)))), "complex -1+0i");
    assert_eq!(shown(Interpreter::execute_prod(&rat(1, 2), &complex((2, 1), (4, 1)))), "complex 1+2i");
    assert_eq!(shown(Interpreter::execute_prod(&whole(3), &truth(true))), "int 3");
    assert_eq!(shown(Interpreter::execute_prod(&truth(false), &rat(1, 2))), "rat 0");
    assert_eq!(shown(Interpreter::execute_prod(&truth(true), &truth(true))), "bool true");
    assert_eq!(shown(Interpreter::execute_prod(&truth(true), &truth(false))), "bool false");
    assert_eq!(failure(Interpreter::execute_prod(&text("a"), &whole(2))), Error::UnsupportedOperation);
    assert_eq!(failure(Interpreter::execute_prod(&text("a"), &text("b"))), Error::UnsupportedOperation);
    assert_eq!(failure(Interpreter::execute_prod(&whole(2), &text("a"))), Error::UnsupportedOperation);
    assert_eq!(failure(Interpreter::execute_prod(&whole(2), &Val::Tuple(Tuple(vec![])))), Error::UnsupportedOperation);
}

#[test]
fn quotients() {
    assert_eq!(shown(Interpreter::execute_quot(&whole(1), &whole(2))), "rat 1/2");
    assert_eq!(shown(Interpreter::execute_quot(&whole(4), &whole(2))), "rat 2");
    assert_eq!(shown(Interpreter::execute_quot(&whole(1), &rat(1, 2))), "rat 2");
    assert_eq!(shown(Interpreter::execute_quot(&rat(1, 2), &whole(-2))), "rat -1/4");
    assert_eq!(shown(Interpreter::execute_quot(&rat(1, 2), &rat(1, 4))), "rat 2");
    assert_eq!(shown(Interpreter::execute_quot(&whole(1), &complex((0, 1), (1, 1)))), "complex 0-1i");
    assert_eq!(shown(Interpreter::execute_quot(&complex((2, 1), (4, 1)), &whole(2))), "complex 1+2i");
    assert_eq!(shown(Interpreter::execute_quot(&complex((2, 1), (4, 1)), &rat(1, 2))), "complex 4+8i");
    assert_eq!(failure(Interpreter::execute_quot(&whole(1), &whole(0))), Error::UnsupportedOperation);
    assert_eq!(failure(Interpreter::execute_quot(&rat(1, 2), &rat(0, 1))), Error::UnsupportedOperation);
    assert_eq!(failure(Interpreter::execute_quot(&whole(1), &complex((0, 1), (0, 1)))), Error::UnsupportedOperation);
    assert_eq!(failure(Interpreter::execute_quot(&whole(1), &truth(true))), Error::UnsupportedOperation);
    assert_eq!(failure(Interpreter::execute_quot(&truth(true), &whole(1))), Error::UnsupportedOperation);
    assert_eq!(failure(Interpreter::execute_quot(&text("a"), &whole(1))), Error::UnsupportedOperation);
    assert_eq!(failure(Interpreter::execute_quot(&whole(1), &text("a"))), Error::UnsupportedOperation);
}

#[test]
fn powers_of_integers() {
    assert_eq!(shown(Interpreter::execute_power(&whole(2), &whole(10))), "int 1024");
    assert_eq!(shown(Interpreter::execute_power(&whole(2), &whole(0))), "int 1");
    assert_eq!(shown(Interpreter::execute_power(&whole(-1), &whole(2))), "int 1");
    assert_eq!(shown(Interpreter::execute_power(&whole(-1), &whole(3))), "int -1");
    assert_eq!(failure(Interpreter::execute_power(&whole(0), &whole(0))), Error::UnsupportedOperation);
    assert_eq!(shown(Interpreter::execute_power(&whole(0), &whole(5))), "int 0");
    assert_eq!(shown(Interpreter::execute_power(&whole(2), &whole(-2))), "rat 1/4");
    assert_eq!(shown(Interpreter::execute_power(&whole(-2), &whole(-3))), "rat -1/8");
    assert_eq!(shown(Interpreter::execute_power(&whole(1), &whole(-3))), "int 1");
    assert_eq!(shown(Interpreter::execute_power(&whole(1), &minus_huge())), "int 1");
    assert_eq!(failure(Interpreter::execute_power(&whole(0), &whole(-1))), Error::UnsupportedOperation);
    assert_eq!(failure(Interpreter::execute_power(&whole(2), &huge())), Error::UnsupportedOperation);
    assert_eq!(failure(Interpreter::execute_power(&whole(2), &minus_huge())), Error::UnsupportedOperation);
    assert_eq!(failure(Interpreter::execute_power(&whole(0), &huge())), Error::UnsupportedOperation);
    assert_eq!(failure(Interpreter::execute_power(&whole(0), &minus_huge())), Error::UnsupportedOperation);
    assert_eq!(failure(Interpreter::execute_power(&whole(-1), &huge())), Error::UnsupportedOperation);
    assert_eq!(failure(Interpreter::execute_power(&whole(-1), &minus_huge())), Error::UnsupportedOperation);
    assert_eq!(failure(Interpreter::execute_power(&whole(-7), &minus_huge())), Error::UnsupportedOperation);
    assert_eq!(failure(Interpreter::execute_power(&whole(1), &huge())), Error::UnsupportedOperation);
    assert_eq!(shown(Interpreter::execute_power(&whole(5), &truth(true))), "int 5");
    assert_eq!(shown(Interpreter::execute_power(&whole(5), &truth(false))), "int 1");
    assert_eq!(failure(Interpreter::execute_power(&whole(2), &rat(1, 2))), Error::NotYetImplemented);
    assert_eq!(failure(Interpreter::execute_power(&whole(2), &complex((1, 1), (1, 1)))), Error::NotYetImplemented);
    assert_eq!(failure(Interpreter::execute_power(&whole(2), &Val::Tuple(Tuple(vec![])))), Error::UnsupportedOperation);
}

#[test]
fn powers_of_rationals() {
    assert_eq!(shown(Interpreter::execute_power(&rat(3, 2), &whole(2))), "rat 9/4");
    assert_eq!(shown(Interpreter::execute_power(&rat(3, 2), &whole(-2))), "rat 4/9");
    assert_eq!(shown(Interpreter::execute_power(&rat(1, 2), &whole(3))), "rat 1/8");
    assert_eq!(shown(Interpreter::execute_power(&rat(1, 2), &whole(-3))), "rat 8");
    assert_eq!(shown(Interpreter::execute_power(&rat(-1, 2), &whole(3))), "rat -1/8");
    assert_eq!(shown(Interpreter::execute_power(&rat(-1, 2), &whole(-3))), "rat -8");
    assert_eq!(shown(Interpreter::execute_power(&rat(-3, 2), &whole(2))), "rat 9/4");
    assert_eq!(shown(Interpreter::execute_power(&rat(-3, 2), &whole(-1))), "rat -2/3");
    assert_eq!(shown(Interpreter::execute_power(&rat(3, 2), &whole(0))), "int 1");
    assert_eq!(failure(Interpreter::execute_power(&rat(0, 1), &whole(0))), Error::UnsupportedOperation);
    assert_eq!(shown(Interpreter::execute_power(&rat(0, 1), &whole(3))), "rat 0");
    assert_eq!(failure(Interpreter::execute_power(&rat(0, 1), &whole(-3))), Error::UnsupportedOperation);
    assert_eq!(failure(Interpreter::execute_power(&rat(0, 1), &huge())), Error::UnsupportedOperation);
    assert_eq!(shown(Interpreter::execute_power(&rat(-1, 1), &whole(4))), "int 1");
    assert_eq!(shown(Interpreter::execute_power(&rat(-1, 1), &whole(-5))), "int -1");
    assert_eq!(shown(Interpreter::execute_power(&rat(-1, 1), &huge())), "int 1");
    assert_eq!(shown(Interpreter::execute_power(&rat(-1, 1), &minus_huge())), "int 1");
    assert_eq!(failure(Interpreter::execute_power(&rat(0, 1), &minus_huge())), Error::UnsupportedOperation);
}

#[test]
fn powers_of_rationals_too_large() {
    assert_eq!(failure(Interpreter::execute_power(&rat(3, 2), &huge())), Error::UnsupportedOperation);
    assert_eq!(failure(Interpreter::execute_power(&rat(3, 2), &minus_huge())), Error::UnsupportedOperation);
    assert_eq!(failure(Interpreter::execute_power(&rat(1, 1), &huge())), Error::UnsupportedOperation);
    assert_eq!(failure(Interpreter::execute_power(&rat(1, 2), &huge())), Error::UnsupportedOperation);
    assert_eq!(failure(Interpreter::execute_power(&rat(1, 2), &minus_huge())), Error::UnsupportedOperation);
    assert_eq!(failure(Interpreter::execute_power(&rat(-1, 2), &huge())), Error::UnsupportedOperation);
    assert_eq!(failure(Interpreter::execute_power(&rat(-1, 2), &minus_huge())), Error::UnsupportedOperation);
    assert_eq!(failure(Interpreter::execute_power(&rat(-3, 2), &huge())), Error::UnsupportedOperation);
    assert_eq!(failure(Interpreter::execute_power(&rat(-3, 2), &minus_huge())), Error::UnsupportedOperation);
}

#[test]
fn powers_of_other_values() {
    assert_eq!(shown(Interpreter::execute_power(&rat(3, 2), &truth(true))), "rat 3/2");
    assert_eq!(shown(Interpreter::execute_power(&rat(3, 2), &truth(false))), "rat 1");
    assert_eq!(failure(Interpreter::execute_power(&rat(3, 2), &rat(1, 2))), Error::NotYetImplemented);
    let c = complex((1, 1), (1, 1));
    assert_eq!(failure(Interpreter::execute_power(&c, &whole(2))), Error::NotYetImplemented);
    assert_eq!(failure(Interpreter::execute_power(&c, &truth(true))), Error::NotYetImplemented);
    assert_eq!(failure(Interpreter::execute_power(&c, &Val::Tuple(Tuple(vec![])))), Error::UnsupportedOperation);
    assert_eq!(failure(Interpreter::execute_power(&truth(true), &whole(2))), Error::UnsupportedOperation);
    assert_eq!(failure(Interpreter::execute_power(&text("a"), &whole(2))), Error::UnsupportedOperation);
    assert_eq!(failure(Interpreter::execute_power(&whole(2), &text("a"))), Error::UnsupportedOperation);
    let set = Val::SetValue(Rc::new(CanonSet::Finite(FiniteSet::new(vec![]))));
    assert_eq!(failure(Interpreter::execute_power(&set, &whole(2))), Error::NotYetImplemented);
    assert_eq!(failure(Interpreter::execute_power(&set, &whole(-2))), Error::TypeMismatch);
}
