use mathscript::ast::{Expr, Stmt};
use mathscript::environment::{Scopes, SymStore};
use mathscript::error::Error;
use mathscript::interpreter::Interpreter;
use mathscript::number::Integer;
use mathscript::set::{CanonSet, FiniteSet, InfiniteSet};
use mathscript::token::{Token, TokenKind};
use mathscript::value::{Func, Val};
use std::rc::Rc;

fn whole(x: i64) -> Val {
    Val::Integer(Integer::from_i64(x))
}

fn lit(x: i64) -> Expr {
    Expr::Literal(whole(x))
}

fn sym(name: &str) -> Expr {
    Expr::Symbol(name.to_string())
}

fn op(kind: TokenKind) -> Token {
    Token::new(kind, 1)
}

fn plus(l: Expr, r: Expr) -> Expr {
    Expr::Binary(Box::new(l), op(TokenKind::Plus), Box::new(r))
}

fn names(list: &[&str]) -> Vec<String> {
    list.iter().map(|s| s.to_string()).collect()
}

fn univ() -> Rc<CanonSet> {
    Rc::new(CanonSet::Infinite(InfiniteSet::Univ))
}

#[test]
fn new_interpreter_knows_the_named_sets() {
    let interpreter = Interpreter::new();
    for name in ["Univ", "Empty", "Nat", "Int", "Real", "Complex", "Str"] {
        match interpreter.lookup(name) {
            Some(SymStore::Value(Val::SetValue(set))) => assert_eq!(set.display(), name),
            _ => panic!("{} is not bound to a set", name),
        }
    }
    assert_eq!(interpreter.env(), 0);
    assert_eq!(interpreter.scopes().len(), 1);
}

#[test]
fn literals_symbols_groups() {
    let mut interpreter = Interpreter::new();
    assert_eq!(interpreter.execute_expr(&lit(5)).unwrap().display(), "5");
    assert_eq!(interpreter.execute_expr(&Expr::Group(Box::new(lit(5)))).unwrap().display(), "5");
    assert_eq!(interpreter.execute_expr(&sym("x")).err(), Some(Error::UndefinedSymbol));
    interpreter.insert_value("x".to_string(), whole(7));
    assert_eq!(interpreter.execute_expr(&sym("x")).unwrap().display(), "7");
    interpreter.insert_type_constraint("t".to_string(), &univ());
    assert_eq!(interpreter.execute_expr(&sym("t")).err(), Some(Error::UndefinedSymbol));
}

#[test]
fn operators_without_a_meaning() {
    let mut interpreter = Interpreter::new();
    let not = Expr::Unary(op(TokenKind::Bang), Box::new(lit(1)));
    assert_eq!(interpreter.execute_expr(&not).err(), Some(Error::NotYetImplemented));
    let less = Expr::Binary(Box::new(lit(1)), op(TokenKind::Less), Box::new(lit(2)));
    assert_eq!(interpreter.execute_expr(&less).err(), Some(Error::NotYetImplemented));
    let matrix = Expr::Matrix(vec![vec![lit(1)]]);
    assert_eq!(interpreter.execute_expr(&matrix).err(), Some(Error::NotYetImplemented));
    let assign = Expr::Assign("x".to_string(), Box::new(lit(1)));
    assert_eq!(interpreter.execute_expr(&assign).err(), Some(Error::NotYetImplemented));
}

#[test]
fn tuples_keep_their_order() {
    let mut interpreter = Interpreter::new();
    let tuple = Expr::Tuple(vec![lit(3), lit(1), lit(3)]);
    assert_eq!(interpreter.execute_expr(&tuple).unwrap().display(), "[3, 1, 3]");
    let failing = Expr::Tuple(vec![lit(3), sym("nope")]);
    assert_eq!(interpreter.execute_expr(&failing).err(), Some(Error::UndefinedSymbol));
}

#[test]
fn set_literals_are_interned() {
    let mut interpreter = Interpreter::new();
    let first = interpreter.execute_set(&vec![lit(1), lit(2), lit(3)]).unwrap();
    let second = interpreter.execute_expr(&Expr::SetLiteral(vec![lit(3), lit(2), lit(1), lit(1)])).unwrap();
    match (&first, &second) {
        (Val::SetValue(a), Val::SetValue(b)) => {
            assert!(Rc::ptr_eq(a, b));
            assert_eq!(a.display(), "{1, 2, 3}");
        }
        _ => panic!("not sets"),
    }
    assert!(first.compare(&second));
}

#[test]
fn single_assignment() {
    let mut interpreter = Interpreter::new();
    assert_eq!(interpreter.execute_assign("x", &lit(5)).unwrap().display(), "5");
    assert_eq!(interpreter.execute_assign("x", &lit(6)).err(), Some(Error::ReassignmentError));
    assert_eq!(interpreter.execute_typed_assign("x", &sym("Nat"), &lit(6)).err(), Some(Error::ReassignmentError));
    assert_eq!(interpreter.execute_expr(&sym("x")).unwrap().display(), "5");
    assert_eq!(interpreter.execute_assign("Nat", &lit(6)).err(), Some(Error::ReassignmentError));
}

#[test]
fn assignment_in_an_inner_scope_sees_the_outer_value() {
    let mut scopes = Scopes::new();
    let mut outer = mathscript::environment::Env::new(None);
    outer.insert_sym("x".to_string(), whole(5));
    let outer_id = scopes.push(outer);
    let inner_id = scopes.push(mathscript::environment::Env::new(Some(outer_id)));
    let mut nested = Interpreter::with_env(scopes, inner_id);
    assert_eq!(nested.execute_assign("x", &lit(6)).err(), Some(Error::ReassignmentError));
    assert_eq!(nested.execute_expr(&sym("x")).unwrap().display(), "5");
    assert_eq!(nested.execute_assign("y", &lit(6)).unwrap().display(), "6");
    assert!(nested.scopes().scope(inner_id).unwrap().contains_key("y"));
    assert!(!nested.scopes().scope(outer_id).unwrap().contains_key("y"));
}

#[test]
fn typed_assignment() {
    let mut interpreter = Interpreter::new();
    assert_eq!(interpreter.execute_typed_assign("a", &sym("Nat"), &lit(1)), Ok(()));
    assert_eq!(interpreter.execute_typed_assign("b", &sym("Nat"), &lit(-1)), Err(Error::TypeMismatch));
    assert!(interpreter.lookup("b").is_none());
    assert_eq!(interpreter.execute_typed_assign("c", &lit(1), &lit(1)), Err(Error::NotASet));
    assert_eq!(interpreter.execute_typed_assign("d", &sym("nope"), &lit(1)), Err(Error::UndefinedSymbol));
    assert_eq!(interpreter.execute_typed_assign("e", &sym("Nat"), &sym("nope")), Err(Error::UndefinedSymbol));
}

#[test]
fn declarations() {
    let mut interpreter = Interpreter::new();
    let declare = Stmt::ExprStmt(Expr::TypeExpr(Box::new(sym("x")), Box::new(Expr::SetLiteral(vec![lit(1), lit(2), lit(3)]))), true);
    assert_eq!(interpreter.execute_stmt(&declare), Ok(None));
    match interpreter.lookup("x") {
        Some(SymStore::Type(set)) => assert_eq!(set.display(), "{1, 2, 3}"),
        _ => panic!("no constraint"),
    }
    assert_eq!(interpreter.execute_assign("x", &lit(5)).err(), Some(Error::TypeMismatch));
    assert_eq!(interpreter.execute_assign("x", &lit(2)).unwrap().display(), "2");
    assert_eq!(interpreter.execute_stmt(&declare), Err(Error::NotYetImplemented));
    let cast = Stmt::ExprStmt(Expr::TypeExpr(Box::new(lit(1)), Box::new(sym("Nat"))), true);
    assert_eq!(interpreter.execute_stmt(&cast), Err(Error::NotYetImplemented));
    let no_set = Stmt::ExprStmt(Expr::TypeExpr(Box::new(sym("y")), Box::new(lit(1))), true);
    assert_eq!(interpreter.execute_stmt(&no_set), Err(Error::NotASet));
}

#[test]
fn signatures_constrain_the_parameters() {
    let mut interpreter = Interpreter::new();
    let signature = Stmt::ExprStmt(
        Expr::FuncTypeExpr(Box::new(sym("f")), vec![sym("Nat")], Box::new(sym("Int"))),
        false,
    );
    assert_eq!(interpreter.execute_stmt(&signature), Ok(None));
    match interpreter.lookup("f") {
        Some(SymStore::FuncType(params, result)) => {
            assert_eq!(params.len(), 1);
            assert_eq!(params[0].display(), "Nat");
            assert_eq!(result.display(), "Int");
        }
        _ => panic!("no signature"),
    }
    let two = Expr::Func(names(&["x", "y"]), Box::new(sym("x")));
    assert_eq!(interpreter.execute_assign("f", &two).err(), Some(Error::ArityError));
    let one = Expr::Func(names(&["x"]), Box::new(plus(sym("x"), lit(1))));
    interpreter.execute_assign("f", &one).unwrap();
    let call = |arg: i64| Expr::Call(Box::new(sym("f")), vec![Some(lit(arg))]);
    assert_eq!(interpreter.execute_expr(&call(2)).unwrap().display(), "3");
    assert_eq!(interpreter.execute_expr(&call(-2)).err(), Some(Error::TypeMismatch));
    let bad = Stmt::ExprStmt(
        Expr::FuncTypeExpr(Box::new(sym("g")), vec![lit(1)], Box::new(sym("Int"))),
        false,
    );
    assert_eq!(interpreter.execute_stmt(&bad), Err(Error::NotASet));
    let bad_result = Stmt::ExprStmt(
        Expr::FuncTypeExpr(Box::new(sym("g")), vec![sym("Nat")], Box::new(lit(1))),
        false,
    );
    assert_eq!(interpreter.execute_stmt(&bad_result), Err(Error::NotASet));
    assert_eq!(interpreter.execute_stmt(&signature), Err(Error::NotYetImplemented));
}

#[test]
fn statements_show_lines() {
    let mut interpreter = Interpreter::new();
    let shown = Stmt::ExprStmt(Expr::Assign("x".to_string(), Box::new(lit(5))), true);
    let silent = Stmt::ExprStmt(Expr::Assign("y".to_string(), Box::new(lit(6))), false);
    let bare = Stmt::ExprStmt(plus(sym("x"), sym("y")), false);
    assert_eq!(interpreter.execute_stmt(&shown), Ok(Some("x = 5".to_string())));
    assert_eq!(interpreter.execute_stmt(&silent), Ok(None));
    assert_eq!(interpreter.execute_stmt(&bare), Ok(Some("11".to_string())));
    let (lines, error) = interpreter.interpret(&vec![bare.clone(), shown.clone(), bare.clone()]);
    assert_eq!(lines, vec!["11".to_string()]);
    assert_eq!(error, Some(Error::ReassignmentError));
}

#[test]
fn calls_bind_check_and_curry() {
    let body = plus(sym("x"), sym("y"));
    let mut scopes = Scopes::new();
    scopes.push(mathscript::environment::Env::new(None));
    let f = Func::from_func_expr(&names(&["x", "y"]), &body, &mut scopes, 0);
    assert_eq!(f.env(), 1);
    assert_eq!(f.arity(), 2);
    assert_eq!(f.args(), &names(&["x", "y"]));
    assert_eq!(f.expr().display(), "x + y");
    assert_eq!(f.codomain().display(), "Univ");
    assert!(f.is_defined(&scopes, "x"));
    assert!(!f.is_defined(&scopes, "z"));
    let mut interpreter = Interpreter::with_env(scopes, 0);
    assert_eq!(f.call(&mut interpreter, &vec![Some(whole(1)), Some(whole(2))]).unwrap().display(), "3");
    assert_eq!(
        f.call(&mut interpreter, &vec![Some(whole(1)), Some(whole(2)), Some(whole(3))]).err(),
        Some(Error::ArityError)
    );
    let g = match f.call(&mut interpreter, &vec![Some(whole(1))]).unwrap() {
        Val::Function(g) => g,
        _ => panic!("no function"),
    };
    assert_eq!(g.arity(), 1);
    assert_eq!(g.args(), &names(&["y"]));
    assert_eq!(g.expr().display(), "1 + y");
    assert_eq!(g.call(&mut interpreter, &vec![Some(whole(2))]).unwrap().display(), "3");
    let h = match f.call(&mut interpreter, &vec![None, Some(whole(5))]).unwrap() {
        Val::Function(h) => h,
        _ => panic!("no function"),
    };
    assert_eq!(h.args(), &names(&["x"]));
    assert_eq!(h.expr().display(), "x + 5");
    let same = match f.call(&mut interpreter, &vec![]).unwrap() {
        Val::Function(k) => k,
        _ => panic!("no function"),
    };
    assert_eq!(same.arity(), 2);
    assert_eq!(interpreter.env(), 0);
}

#[test]
fn functions_can_be_moved_and_defined() {
    let mut scopes = Scopes::new();
    scopes.push(mathscript::environment::Env::new(None));
    scopes.push(mathscript::environment::Env::new(None));
    let mut f = Func::new(0, &names(&["x"]), plus(sym("x"), sym("k")), &univ());
    assert_eq!(f.env(), 0);
    f.define(&mut scopes, "k", whole(10));
    assert!(f.is_defined(&scopes, "k"));
    let moved = f.clone_with_env(1);
    assert_eq!(moved.env(), 1);
    assert!(!moved.is_defined(&scopes, "k"));
    let mut interpreter = Interpreter::with_env(scopes, 0);
    assert_eq!(f.call(&mut interpreter, &vec![Some(whole(1))]).unwrap().display(), "11");
    assert_eq!(moved.call(&mut interpreter, &vec![Some(whole(1))]).err(), Some(Error::UndefinedSymbol));
    let copy = f.clone();
    assert_eq!(copy.call(&mut interpreter, &vec![Some(whole(2))]).unwrap().display(), "12");
}

#[test]
fn currying_replaces_what_holds_a_value() {
    let mut interpreter = Interpreter::new();
    interpreter.insert_value("a".to_string(), whole(1));
    interpreter.insert_value("b".to_string(), whole(2));
    interpreter.insert_type_constraint("t".to_string(), &univ());
    let e = plus(plus(sym("a"), sym("b")), sym("t"));
    assert_eq!(interpreter.curry_expr(&e, &names(&["b"])).unwrap().display(), "1 + b + t");
    assert_eq!(interpreter.curry_expr(&sym("missing"), &names(&[])).err(), Some(Error::UndefinedSymbol));
    assert_eq!(interpreter.curry_expr(&sym("missing"), &names(&["missing"])).unwrap().display(), "missing");
    let nested = Expr::Func(names(&["a"]), Box::new(plus(sym("a"), sym("b"))));
    assert_eq!(interpreter.curry_expr(&nested, &names(&[])).unwrap().display(), "a -> a + 2");
    let call = Expr::Call(Box::new(sym("t")), vec![Some(sym("a")), None]);
    assert_eq!(interpreter.curry_expr(&call, &names(&[])).unwrap().display(), "t(1, )");
    let list = Expr::Tuple(vec![sym("a"), Expr::SetLiteral(vec![sym("b")])]);
    assert_eq!(interpreter.curry_expr(&list, &names(&[])).unwrap().display(), "[1{2}]");
    let matrix = Expr::Matrix(vec![vec![sym("a")]]);
    assert_eq!(interpreter.curry_expr(&matrix, &names(&[])).err(), Some(Error::NotYetImplemented));
}

#[test]
fn renaming_respects_the_parameters_of_inner_functions() {
    let find = names(&["x", "y"]);
    let replace = names(&["u", "v"]);
    let e = plus(sym("x"), plus(sym("y"), sym("z")));
    assert_eq!(Interpreter::substitute_symbols(&e, &find, &replace).display(), "u + v + z");
    let inner = Expr::Func(names(&["x"]), Box::new(plus(sym("x"), sym("y"))));
    assert_eq!(Interpreter::substitute_symbols(&inner, &find, &replace).display(), "x -> x + v");
    let call = Expr::Call(Box::new(sym("x")), vec![None, Some(sym("y"))]);
    assert_eq!(Interpreter::substitute_symbols(&call, &find, &replace).display(), "u(, v)");
    let shapes = Expr::Tuple(vec![
        Expr::Group(Box::new(sym("x"))),
        Expr::Unary(op(TokenKind::Minus), Box::new(sym("y"))),
        Expr::SetLiteral(vec![sym("x")]),
        Expr::Matrix(vec![vec![sym("x"), sym("y")]]),
    ]);
    assert_eq!(Interpreter::substitute_symbols(&shapes, &find, &replace).display(), "[(u)-v{u}[ u, v ]]");
    let short = names(&["u"]);
    assert_eq!(Interpreter::substitute_symbols(&e, &find, &short).display(), "u + y + z");
}

#[test]
fn operators_lift_over_functions() {
    let mut interpreter = Interpreter::new();
    let f = Expr::Func(names(&["x"]), Box::new(plus(sym("x"), lit(1))));
    let g = Expr::Func(names(&["y"]), Box::new(sym("y")));
    let h = Expr::Func(names(&["a", "b"]), Box::new(sym("a")));
    let sum = interpreter.execute_expr(&plus(f.clone(), g.clone())).unwrap();
    assert_eq!(sum.display(), "x -> (x + 1) + (x)");
    let with_number = interpreter.execute_expr(&plus(f.clone(), lit(2))).unwrap();
    assert_eq!(with_number.display(), "x -> (x + 1) + 2");
    let number_first = interpreter.execute_expr(&plus(lit(2), f.clone())).unwrap();
    assert_eq!(number_first.display(), "x -> 2 + (x + 1)");
    let negated = interpreter.execute_expr(&Expr::Unary(op(TokenKind::Minus), Box::new(f.clone()))).unwrap();
    assert_eq!(negated.display(), "x -> -(x + 1)");
    assert_eq!(interpreter.execute_expr(&plus(f.clone(), h.clone())).err(), Some(Error::ArityError));
    let compared = Expr::Binary(Box::new(f.clone()), op(TokenKind::Less), Box::new(lit(1)));
    assert_eq!(interpreter.execute_expr(&compared).unwrap().display(), "x -> (x + 1) < 1");
}

#[test]
fn values_of_any_kind_come_back_from_literals() {
    let mut interpreter = Interpreter::new();
    let set = Val::SetValue(Rc::new(CanonSet::Finite(FiniteSet::new(vec![whole(1)]))));
    assert_eq!(interpreter.execute_expr(&Expr::Literal(set)).unwrap().display(), "{1}");
}

#[test]
fn calls_nest_up_to_the_limit() {
    let mut interpreter = Interpreter::new();
    let body = Expr::Call(Box::new(sym("f")), vec![Some(sym("x"))]);
    interpreter.execute_assign("f", &Expr::Func(names(&["x"]), Box::new(body))).unwrap();
    let call = Expr::Call(Box::new(sym("f")), vec![Some(lit(1))]);
    assert_eq!(interpreter.execute_expr(&call).err(), Some(Error::DepthExceeded));
    assert_eq!(interpreter.env(), 0);
}

#[test]
fn a_refused_value_is_remembered() {
    let mut interpreter = Interpreter::new();
    assert!(interpreter.last_mismatch().is_none());
    assert_eq!(interpreter.execute_typed_assign("b", &sym("Nat"), &lit(-1)), Err(Error::TypeMismatch));
    let mismatch = interpreter.last_mismatch().as_ref().unwrap();
    assert_eq!(mismatch.name, "b");
    assert_eq!(mismatch.set, "Nat");
    assert_eq!(mismatch.value, "-1");
    assert_eq!(mismatch.message(), "'b' belongs to 'Nat' which doesn't contain '-1'");
    let declare = Stmt::ExprStmt(Expr::TypeExpr(Box::new(sym("x")), Box::new(Expr::SetLiteral(vec![lit(1), lit(2)]))), true);
    interpreter.execute_stmt(&declare).unwrap();
    assert_eq!(interpreter.execute_assign("x", &lit(5)).err(), Some(Error::TypeMismatch));
    let mismatch = interpreter.last_mismatch().as_ref().unwrap();
    assert_eq!((mismatch.name.as_str(), mismatch.set.as_str(), mismatch.value.as_str()), ("x", "{1, 2}", "5"));
    let signature = Stmt::ExprStmt(
        Expr::FuncTypeExpr(Box::new(sym("f")), vec![sym("Int")], Box::new(sym("Int"))),
        false,
    );
    interpreter.execute_stmt(&signature).unwrap();
    interpreter.execute_assign("f", &Expr::Func(names(&["p"]), Box::new(sym("p")))).unwrap();
    let half = Expr::Binary(Box::new(lit(1)), op(TokenKind::Slash), Box::new(lit(2)));
    let call = Expr::Call(Box::new(sym("f")), vec![Some(half)]);
    assert_eq!(interpreter.execute_expr(&call).err(), Some(Error::TypeMismatch));
    let mismatch = interpreter.last_mismatch().as_ref().unwrap();
    assert_eq!((mismatch.name.as_str(), mismatch.set.as_str(), mismatch.value.as_str()), ("p", "Int", "1/2"));
}

#[test]
fn the_caller_chooses_how_deep_calls_nest() {
    let inner = Expr::Func(names(&["x"]), Box::new(plus(sym("x"), lit(1))));
    let outer = Expr::Func(
        names(&["x"]),
        Box::new(Expr::Call(Box::new(sym("f")), vec![Some(sym("x"))])),
    );
    let call_inner = Expr::Call(Box::new(sym("f")), vec![Some(lit(1))]);
    let call_outer = Expr::Call(Box::new(sym("g")), vec![Some(lit(1))]);

    let mut none = Interpreter::with_call_depth(0);
    assert_eq!(none.call_depth(), 0);
    none.execute_assign("f", &inner).unwrap();
    assert_eq!(none.execute_expr(&call_inner).err(), Some(Error::DepthExceeded));
    assert_eq!(none.execute_expr(&plus(lit(1), lit(2))).unwrap().display(), "3");

    let mut one = Interpreter::with_call_depth(1);
    one.execute_assign("f", &inner).unwrap();
    one.execute_assign("g", &outer).unwrap();
    assert_eq!(one.execute_expr(&call_inner).unwrap().display(), "2");
    assert_eq!(one.execute_expr(&call_outer).err(), Some(Error::DepthExceeded));
    assert_eq!(one.call_depth(), 1);

    let mut two = Interpreter::with_call_depth(2);
    two.execute_assign("f", &inner).unwrap();
    two.execute_assign("g", &outer).unwrap();
    assert_eq!(two.execute_expr(&call_outer).unwrap().display(), "2");
    assert_eq!(two.call_depth(), 2);
}

#[test]
fn a_new_interpreter_lets_calls_nest_five_hundred_deep() {
    assert_eq!(mathscript::semantics::MAX_CALL_DEPTH, 500);
    assert_eq!(Interpreter::new().call_depth(), 500);
    assert_eq!(Interpreter::with_env(Scopes::new(), 0).call_depth(), 500);
}

#[test]
fn twice_the_usual_depth_fits_the_stack_of_a_thread() {
    let mut interpreter = Interpreter::with_call_depth(1000);
    let body = Expr::Call(Box::new(sym("f")), vec![Some(sym("x"))]);
    interpreter.execute_assign("f", &Expr::Func(names(&["x"]), Box::new(body))).unwrap();
    let call = Expr::Call(Box::new(sym("f")), vec![Some(lit(1))]);
    assert_eq!(interpreter.execute_expr(&call).err(), Some(Error::DepthExceeded));
    assert_eq!(interpreter.env(), 0);
}

#[test]
fn calls_nest_as_deep_as_the_limit_and_no_deeper() {
    let chain = |levels: usize| {
        let mut interpreter = Interpreter::with_call_depth(levels);
        interpreter.execute_assign("f0", &Expr::Func(names(&["x"]), Box::new(sym("x")))).unwrap();
        for k in 1..=3 {
            let inner = Expr::Call(Box::new(sym(&format!("f{}", k - 1))), vec![Some(sym("x"))]);
            interpreter.execute_assign(&format!("f{}", k), &Expr::Func(names(&["x"]), Box::new(inner))).unwrap();
        }
        let call = Expr::Call(Box::new(sym("f3")), vec![Some(lit(7))]);
        interpreter.execute_expr(&call).map(|v| v.display())
    };
    assert_eq!(chain(3).err(), Some(Error::DepthExceeded));
    assert_eq!(chain(4), Ok("7".to_string()));
    assert_eq!(chain(5), Ok("7".to_string()));
}

#[test]
fn a_function_is_called_within_the_limit_of_its_interpreter() {
    let mut interpreter = Interpreter::with_call_depth(0);
    let f = Func::new(0, &names(&["x"]), sym("x"), &univ());
    assert_eq!(f.call(&mut interpreter, &vec![Some(whole(1))]).unwrap().display(), "1");
}
