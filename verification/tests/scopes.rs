use mathscript::environment::{Env, Scopes, SymStore};
use mathscript::number::Integer;
use mathscript::set::{CanonSet, FiniteSet, InfiniteSet};
use mathscript::value::Val;
use std::rc::Rc;

fn whole(x: i64) -> Val {
    Val::Integer(Integer::from_i64(x))
}

fn named(k: InfiniteSet) -> Rc<CanonSet> {
    Rc::new(CanonSet::Infinite(k))
}

fn value_text(entry: Option<SymStore>) -> String {
    match entry {
        Some(SymStore::Value(v)) => format!("value {}", v.display()),
        Some(SymStore::Type(s)) => format!("type {}", s.display()),
        Some(SymStore::FuncType(params, result)) => format!(
            "signature {} -> {}",
            params.iter().map(|p| p.display()).collect::<Vec<_>>().join(", "),
            result.display()
        ),
        None => "nothing".to_string(),
    }
}

#[test]
fn a_scope_binds_names() {
    let scopes = Scopes::new();
    let mut env = Env::new(None);
    assert!(!env.contains_key("x"));
    assert!(!env.is_sym_assigned("x"));
    env.insert_sym_type("x".to_string(), named(InfiniteSet::Nat));
    assert!(env.contains_key("x"));
    assert!(!env.is_sym_assigned("x"));
    assert_eq!(value_text(env.get(&scopes, "x")), "type Nat");
    env.insert_sym("x".to_string(), whole(5));
    assert!(env.is_sym_assigned("x"));
    assert_eq!(value_text(env.get(&scopes, "x")), "value 5");
    assert_eq!(value_text(env.get_local("x")), "value 5");
    env.insert_sym_func_type("f".to_string(), vec![named(InfiniteSet::Nat), named(InfiniteSet::Int)], named(InfiniteSet::Real));
    assert_eq!(value_text(env.get(&scopes, "f")), "signature Nat, Int -> Real");
    assert_eq!(value_text(env.get(&scopes, "y")), "nothing");
    assert_eq!(env.parent(), None);
}

#[test]
fn lookup_falls_through_to_the_enclosing_scopes() {
    let mut scopes = Scopes::new();
    let mut outer = Env::new(None);
    outer.insert_sym("x".to_string(), whole(1));
    outer.insert_sym("y".to_string(), whole(2));
    let outer_id = scopes.push(outer);
    let mut inner = Env::new(Some(outer_id));
    inner.insert_sym("y".to_string(), whole(3));
    let inner_id = scopes.push(inner);
    assert_eq!(scopes.len(), 2);
    assert_eq!(value_text(scopes.get(inner_id, "x")), "value 1");
    assert_eq!(value_text(scopes.get(inner_id, "y")), "value 3");
    assert_eq!(value_text(scopes.get(outer_id, "y")), "value 2");
    assert_eq!(value_text(scopes.get(inner_id, "z")), "nothing");
    assert_eq!(value_text(scopes.get(7, "x")), "nothing");
    let innermost = Env::new(Some(inner_id));
    assert_eq!(value_text(innermost.get(&scopes, "x")), "value 1");
    assert_eq!(value_text(innermost.get(&scopes, "y")), "value 3");
    assert!(!innermost.contains_key("x"));
    assert!(!innermost.is_sym_assigned("x"));
}

#[test]
fn insertion_goes_to_the_scope_named() {
    let mut scopes = Scopes::new();
    let outer_id = scopes.push(Env::new(None));
    let inner_id = scopes.push(Env::new(Some(outer_id)));
    scopes.insert(inner_id, "x".to_string(), SymStore::Value(whole(1)));
    assert_eq!(value_text(scopes.get(inner_id, "x")), "value 1");
    assert_eq!(value_text(scopes.get(outer_id, "x")), "nothing");
    scopes.insert(9, "x".to_string(), SymStore::Value(whole(1)));
    assert_eq!(scopes.len(), 2);
    assert!(scopes.scope(inner_id).unwrap().contains_key("x"));
    assert!(scopes.scope(9).is_none());
}

#[test]
fn sets_are_found_by_name() {
    let mut scopes = Scopes::new();
    let mut outer = Env::new(None);
    outer.insert_sym("Univ".to_string(), Val::SetValue(named(InfiniteSet::Univ)));
    outer.insert_sym("n".to_string(), whole(5));
    let outer_id = scopes.push(outer);
    let mut inner = Env::new(Some(outer_id));
    inner.insert_sym("Univ".to_string(), whole(1));
    inner.insert_sym("S".to_string(), Val::SetValue(Rc::new(CanonSet::Finite(FiniteSet::new(vec![whole(1)])))));
    let inner_id = scopes.push(inner);
    assert_eq!(scopes.get_set(inner_id, "Univ").unwrap().display(), "Univ");
    assert_eq!(scopes.get_set(inner_id, "S").unwrap().display(), "{1}");
    assert!(scopes.get_set(inner_id, "n").is_none());
    assert!(scopes.get_set(outer_id, "S").is_none());
    let innermost = Env::new(Some(inner_id));
    assert_eq!(innermost.get_set(&scopes, "Univ").unwrap().display(), "Univ");
    assert!(innermost.get_set(&scopes, "missing").is_none());
}

#[test]
fn a_copy_of_a_scope_is_its_own() {
    let scopes = Scopes::new();
    let mut env = Env::new(Some(3));
    env.insert_sym("x".to_string(), whole(1));
    let mut copy = Env::from_env(&env);
    copy.insert_sym("y".to_string(), whole(2));
    assert_eq!(copy.parent(), Some(3));
    assert_eq!(value_text(copy.get(&scopes, "x")), "value 1");
    assert!(copy.contains_key("y"));
    assert!(!env.contains_key("y"));
}

#[test]
fn an_enclosing_scope_must_stand_before() {
    let mut scopes = Scopes::new();
    let mut first = Env::new(Some(1));
    first.insert_sym("a".to_string(), whole(1));
    scopes.push(first);
    let mut second = Env::new(Some(0));
    second.insert_sym("b".to_string(), whole(2));
    scopes.push(second);
    assert_eq!(value_text(scopes.get(1, "a")), "value 1");
    assert_eq!(value_text(scopes.get(0, "b")), "nothing");
}

#[test]
fn bindings_within_a_set() {
    let nat = named(InfiniteSet::Nat);
    assert_eq!(SymStore::Value(whole(5)).subset_of(&nat), Ok(true));
    assert_eq!(SymStore::Value(whole(-5)).subset_of(&nat), Ok(false));
    let small = Rc::new(CanonSet::Finite(FiniteSet::new(vec![whole(1), whole(2)])));
    let same = Rc::new(CanonSet::Finite(FiniteSet::new(vec![whole(2), whole(1)])));
    assert_eq!(SymStore::Type(small.clone()).subset_of(&same), Ok(true));
    assert_eq!(SymStore::Type(small.clone()).subset_of(&nat), Err(mathscript::error::Error::NotYetImplemented));
    assert_eq!(SymStore::FuncType(vec![nat.clone()], nat.clone()).subset_of(&nat), Ok(false));
}
