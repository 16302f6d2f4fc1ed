use mathscript::interpreter::Interpreter;
use mathscript::lexer::Lexer;
use mathscript::parser::Parser;
use mathscript::set::{CanonSet, FiniteSet, SetPool};
use mathscript::number::Integer;
use mathscript::value::Val;
use std::rc::Rc;

fn whole(x: i64) -> Val {
    Val::Integer(Integer::from_i64(x))
}

fn run(source: &str) -> (Vec<String>, Option<mathscript::error::Error>) {
    let lines: Vec<String> = source.lines().map(|l| l.to_string()).collect();
    let tokens = Lexer::new().lex(&lines).expect("scan");
    let ast = Parser::new(&tokens).parse().expect("parse");
    Interpreter::new().interpret(ast.stmts())
}

#[test]
fn interning_twice_leaves_the_pool_alone() {
    let mut pool = SetPool::new();
    let set = Rc::new(CanonSet::Finite(FiniteSet::new(vec![whole(1), whole(2)])));
    let first = pool.intern(&set);
    let size = pool.len();
    let second = pool.intern(&set);
    assert!(Rc::ptr_eq(&first, &second));
    assert_eq!(pool.len(), size);
}

#[test]
fn sets_with_the_same_elements_are_equal_in_any_order() {
    let a = CanonSet::Finite(FiniteSet::new(vec![whole(1), whole(2), whole(3)]));
    let b = CanonSet::Finite(FiniteSet::new(vec![whole(2), whole(3), whole(1)]));
    assert!(a.equals(&b));
    assert!(b.equals(&a));
}

#[test]
fn a_set_and_a_value_equal_themselves() {
    let a = CanonSet::Finite(FiniteSet::new(vec![whole(1), Val::Text("a".to_string())]));
    assert!(a.equals(&a));
    let v = Val::SetValue(Rc::new(a));
    assert!(v.compare(&v));
}

#[test]
fn set_literals_in_a_program_are_equal_in_any_order() {
    let (lines, error) = run("a = {1, 2, 3}; b = {3, 2, 1}; a; b");
    assert_eq!(error, None);
    assert_eq!(lines, vec!["{1, 2, 3}", "{1, 2, 3}"]);
}

#[test]
fn a_value_is_kept_through_a_program() {
    let lines: Vec<String> = vec!["x = 5; f(a) = a + x; y = f(1); z : Nat = f(2); t : {1}; f(3)".to_string()];
    let tokens = Lexer::new().lex(&lines).unwrap();
    let ast = Parser::new(&tokens).parse().unwrap();
    let mut interpreter = Interpreter::new();
    let before = interpreter.scopes().len();
    let (shown, error) = interpreter.interpret(ast.stmts());
    assert_eq!(error, None);
    assert_eq!(shown, vec!["8"]);
    assert_eq!(interpreter.env(), 0);
    assert!(interpreter.scopes().len() > before);
    match interpreter.lookup("x") {
        Some(mathscript::environment::SymStore::Value(v)) => assert_eq!(v.display(), "5"),
        _ => panic!("x lost its value"),
    }
    match interpreter.lookup("Nat") {
        Some(mathscript::environment::SymStore::Value(v)) => assert_eq!(v.display(), "Nat"),
        _ => panic!("Nat lost its value"),
    }
}

#[test]
fn a_failing_call_leaves_the_interpreter_in_its_scope() {
    let lines: Vec<String> = vec!["x = 5; f(a) = a + nothing; f(1)".to_string()];
    let tokens = Lexer::new().lex(&lines).unwrap();
    let ast = Parser::new(&tokens).parse().unwrap();
    let mut interpreter = Interpreter::new();
    let (_, error) = interpreter.interpret(ast.stmts());
    assert_eq!(error, Some(mathscript::error::Error::UndefinedSymbol));
    assert_eq!(interpreter.env(), 0);
    assert!(interpreter.lookup("a").is_none());
}

#[test]
fn equal_values_hash_alike() {
    let pairs = vec![
        (whole(3), Val::Rational(mathscript::number::Rational::from_integer(&Integer::from_i64(3)))),
        (Val::Text("abc".to_string()), Val::Text("abc".to_string())),
        (Val::Boolean(true), Val::Boolean(true)),
        (
            Val::Tuple(mathscript::value::Tuple(vec![whole(1), Val::Text("a".to_string())])),
            Val::Tuple(mathscript::value::Tuple(vec![whole(1), Val::Text("a".to_string())])),
        ),
    ];
    for (a, b) in pairs {
        assert!(a.compare(&b));
        assert!(b.compare(&a));
        assert_eq!(a.hash_val(), b.hash_val());
    }
}
