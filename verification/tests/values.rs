use mathscript::error::Error;
use mathscript::number::{Complex, Integer, Rational};
use mathscript::set::{canon, CanonSet, FiniteSet, InfiniteSet, SetLike, SetPool};
use mathscript::value::{Tuple, Val};
use std::rc::Rc;

fn whole(x: i64) -> Val {
    Val::Integer(Integer::from_i64(x))
}

fn rat(n: i64, d: i64) -> Val {
    Val::Rational(Rational::new(&Integer::from_i64(n), &Integer::from_i64(d)).unwrap())
}

fn complex(re: (i64, i64), im: (i64, i64)) -> Val {
    Val::Complex(Complex::new(
        Rational::new(&Integer::from_i64(re.0), &Integer::from_i64(re.1)).unwrap(),
        Rational::new(&Integer::from_i64(im.0), &Integer::from_i64(im.1)).unwrap(),
    ))
}

fn text(s: &str) -> Val {
    Val::Text(s.to_string())
}

fn finite(items: Vec<Val>) -> Rc<CanonSet> {
    Rc::new(CanonSet::Finite(FiniteSet::new(items)))
}

fn named(k: InfiniteSet) -> CanonSet {
    CanonSet::Infinite(k)
}

#[test]
fn equality_promotes_numbers() {
    for i in [-3i64, 0, 1, 1 << 40] {
        assert!(whole(i).compare(&rat(i, 1)));
        assert!(rat(i, 1).compare(&whole(i)));
        assert!(whole(i).compare(&complex((i, 1), (0, 1))));
        assert!(complex((i, 1), (0, 1)).compare(&whole(i)));
        assert!(rat(i, 1).compare(&complex((i, 1), (0, 1))));
    }
    assert!(!whole(1).compare(&rat(1, 2)));
    assert!(!whole(1).compare(&complex((1, 1), (1, 1))));
    assert!(!whole(1).compare(&text("1")));
    assert!(!whole(1).compare(&Val::Boolean(true)));
}

#[test]
fn hash_promotes_numbers() {
    for i in [-3i64, 0, 1, 1 << 40] {
        let h = whole(i).hash_val();
        assert_eq!(h, rat(i, 1).hash_val());
        assert_eq!(h, complex((i, 1), (0, 1)).hash_val());
    }
    assert_ne!(whole(1).hash_val(), whole(2).hash_val());
}

#[test]
fn equality_of_other_kinds() {
    assert!(text("a").compare(&text("a")));
    assert!(!text("a").compare(&text("b")));
    assert!(Val::Boolean(false).compare(&Val::Boolean(false)));
    assert!(Val::Boolean(true).compare(&Val::Boolean(true)));
    assert!(!Val::Boolean(true).compare(&Val::Boolean(false)));
    let t1 = Val::Tuple(Tuple(vec![whole(1), rat(1, 2)]));
    let t2 = Val::Tuple(Tuple(vec![rat(1, 1), rat(2, 4)]));
    let t3 = Val::Tuple(Tuple(vec![rat(1, 2), whole(1)]));
    assert!(t1.compare(&t2));
    assert!(!t1.compare(&t3));
    assert!(!t1.compare(&Val::Tuple(Tuple(vec![whole(1)]))));
}

#[test]
fn hash_agrees_with_equality() {
    let t1 = Val::Tuple(Tuple(vec![whole(1), rat(1, 2)]));
    let t2 = Val::Tuple(Tuple(vec![rat(1, 1), rat(2, 4)]));
    assert_eq!(t1.hash_val(), t2.hash_val());
    assert_eq!(text("abc").hash_val(), text("abc").hash_val());
    assert_ne!(text("abc").hash_val(), text("abd").hash_val());
    let s1 = Val::SetValue(finite(vec![whole(1), whole(2), whole(3)]));
    let s2 = Val::SetValue(finite(vec![whole(3), rat(2, 1), whole(1)]));
    assert!(s1.compare(&s2));
    assert_eq!(s1.hash_val(), s2.hash_val());
    assert_ne!(Val::Boolean(true).hash_val(), Val::Boolean(false).hash_val());
}

#[test]
fn kinds_of_values() {
    assert!(whole(1).is_num() && rat(1, 2).is_num() && complex((1, 1), (1, 1)).is_num());
    assert!(!Val::Boolean(true).is_num());
    assert!(text("a").is_str() && !whole(1).is_str());
    assert!(Val::Tuple(Tuple(vec![])).is_tup());
    assert!(Val::SetValue(finite(vec![])).is_set());
}

#[test]
fn display_of_values() {
    assert_eq!(whole(-5).display(), "-5");
    assert_eq!(rat(3, 6).display(), "1/2");
    assert_eq!(complex((1, 2), (-1, 3)).display(), "1/2-1/3i");
    assert_eq!(text("hi").display(), "hi");
    assert_eq!(Val::Boolean(true).display(), "true");
    assert_eq!(Val::Boolean(false).display(), "false");
    assert_eq!(Val::Tuple(Tuple(vec![whole(1), text("a")])).display(), "[1, a]");
    assert_eq!(Val::Tuple(Tuple(vec![])).display(), "[]");
    assert_eq!(Val::SetValue(finite(vec![whole(2), whole(1)])).display(), "{2, 1}");
    let union = CanonSet::Union(Rc::new(named(InfiniteSet::Nat)), finite(vec![whole(1)]));
    assert_eq!(union.display(), "Nat | {1}");
    assert_eq!(CanonSet::Complement(Rc::new(named(InfiniteSet::Int))).display(), "~Int");
    assert_eq!(
        CanonSet::Exclusion(Rc::new(named(InfiniteSet::Real)), Rc::new(named(InfiniteSet::Int))).display(),
        "Real \\ Int"
    );
}

#[test]
fn membership_in_named_sets() {
    let nat = InfiniteSet::Nat;
    assert!(nat.holds(&whole(5)));
    assert!(nat.holds(&whole(0)));
    assert!(!nat.holds(&whole(-3)));
    assert!(!nat.holds(&rat(3, 2)));
    assert!(nat.holds(&rat(4, 2)));
    assert!(nat.holds(&complex((5, 1), (0, 1))));
    assert!(!nat.holds(&complex((5, 1), (1, 1))));
    assert!(!nat.holds(&Val::Boolean(true)));
    let integers = InfiniteSet::Int;
    assert!(integers.holds(&whole(-3)));
    assert!(!integers.holds(&rat(3, 2)));
    assert!(integers.holds(&rat(-6, 2)));
    assert!(integers.holds(&complex((-3, 1), (0, 1))));
    let reals = InfiniteSet::Real;
    assert!(reals.holds(&rat(3, 2)));
    assert!(reals.holds(&whole(1)));
    assert!(!reals.holds(&complex((1, 1), (1, 1))));
    assert!(reals.holds(&complex((1, 2), (0, 1))));
    let complexes = InfiniteSet::Complex;
    assert!(complexes.holds(&complex((1, 1), (1, 1))));
    assert!(complexes.holds(&whole(1)));
    assert!(!complexes.holds(&text("1")));
    assert!(InfiniteSet::Str.holds(&text("a")));
    assert!(!InfiniteSet::Str.holds(&whole(1)));
    for v in [whole(1), text("a"), Val::Boolean(false), Val::Tuple(Tuple(vec![]))] {
        assert!(InfiniteSet::Univ.holds(&v));
        assert!(!InfiniteSet::Empty.holds(&v));
    }
}

#[test]
fn names_of_named_sets() {
    assert_eq!(InfiniteSet::Univ.name(), "Univ");
    assert_eq!(InfiniteSet::Nat.name(), "Nat");
    assert_eq!(InfiniteSet::Int.name(), "Int");
    assert_eq!(InfiniteSet::Real.name(), "Real");
    assert_eq!(InfiniteSet::Complex.name(), "Complex");
    assert_eq!(InfiniteSet::Str.name(), "Str");
    assert_eq!(InfiniteSet::Empty.name(), "Empty");
}

#[test]
fn finite_sets_drop_equal_values() {
    let set = FiniteSet::new(vec![whole(1), rat(1, 1), whole(2), complex((2, 1), (0, 1)), text("a")]);
    assert_eq!(set.len(), 3);
    let kept = set.to_vec();
    assert_eq!(kept[0].display(), "1");
    assert_eq!(kept[1].display(), "2");
    assert_eq!(kept[2].display(), "a");
    assert!(set.holds(&rat(2, 1)));
    assert!(!set.holds(&whole(3)));
}

#[test]
fn set_equality_ignores_order() {
    let a = finite(vec![whole(1), whole(2), whole(3)]);
    let b = finite(vec![whole(3), whole(2), whole(1)]);
    let c = finite(vec![whole(1), whole(2)]);
    let d = finite(vec![whole(1), whole(2), whole(4)]);
    assert!(a.equals(&b));
    assert!(!a.equals(&c));
    assert!(!a.equals(&d));
    assert!(named(InfiniteSet::Nat).equals(&named(InfiniteSet::Nat)));
    assert!(!named(InfiniteSet::Nat).equals(&named(InfiniteSet::Int)));
    assert!(!a.equals(&named(InfiniteSet::Nat)));
    let u1 = CanonSet::Union(a.clone(), Rc::new(named(InfiniteSet::Nat)));
    let u2 = CanonSet::Union(b.clone(), Rc::new(named(InfiniteSet::Nat)));
    let i2 = CanonSet::Intersect(b.clone(), Rc::new(named(InfiniteSet::Nat)));
    assert!(u1.equals(&u2));
    assert!(!u1.equals(&i2));
}

#[test]
fn set_questions() {
    let a = finite(vec![whole(1), whole(2)]);
    assert_eq!(a.is_finite(), Ok(true));
    assert_eq!(a.is_countable(), Ok(true));
    assert_eq!(a.contains(&whole(1)), Ok(true));
    assert_eq!(a.contains(&whole(5)), Ok(false));
    assert_eq!(named(InfiniteSet::Nat).is_finite(), Ok(false));
    assert_eq!(named(InfiniteSet::Nat).is_countable(), Ok(true));
    assert_eq!(named(InfiniteSet::Str).is_countable(), Ok(true));
    assert_eq!(named(InfiniteSet::Real).is_countable(), Ok(false));
    assert_eq!(named(InfiniteSet::Complex).is_countable(), Ok(false));
    assert_eq!(named(InfiniteSet::Univ).is_finite(), Ok(false));
    assert_eq!(named(InfiniteSet::Empty).is_finite(), Ok(true));
    assert_eq!(named(InfiniteSet::Int).contains(&whole(-1)), Ok(true));
    let union = CanonSet::Union(a.clone(), a.clone());
    assert_eq!(union.is_finite(), Err(Error::NotYetImplemented));
    assert_eq!(union.is_countable(), Err(Error::NotYetImplemented));
    assert_eq!(union.contains(&whole(1)), Err(Error::NotYetImplemented));
    assert_eq!(a.is_subset(&finite(vec![whole(2), whole(1)])), Ok(true));
    assert_eq!(a.is_subset(&finite(vec![whole(2), whole(1), whole(3)])), Ok(false));
    assert_eq!(a.is_subset(&Rc::new(named(InfiniteSet::Nat))), Err(Error::NotYetImplemented));
    assert_eq!(named(InfiniteSet::Nat).is_subset(&a), Err(Error::NotYetImplemented));
    assert_eq!(InfiniteSet::Nat.is_subset(&a), Err(Error::NotYetImplemented));
}

#[test]
fn interning_hands_out_the_pooled_set() {
    let mut pool = SetPool::new();
    let first = finite(vec![whole(1), whole(2), whole(3)]);
    let second = finite(vec![whole(1), whole(2), whole(3)]);
    let third = finite(vec![whole(3), whole(2), whole(1)]);
    let a = pool.intern(&first);
    let b = pool.intern(&second);
    let c = pool.intern(&third);
    assert!(Rc::ptr_eq(&a, &first));
    assert!(Rc::ptr_eq(&a, &b));
    assert!(Rc::ptr_eq(&a, &c));
    assert_eq!(pool.len(), 1);
    let other = pool.intern(&finite(vec![whole(1)]));
    assert!(!Rc::ptr_eq(&a, &other));
    assert_eq!(pool.len(), 2);
}

#[test]
fn canon_hands_the_set_back() {
    let set = finite(vec![whole(1)]);
    let same = canon(set.clone());
    assert!(Rc::ptr_eq(&set, &same));
}

#[test]
fn clones_are_equal() {
    let v = Val::Tuple(Tuple(vec![whole(1), text("a"), Val::SetValue(finite(vec![whole(2)]))]));
    let w = v.clone();
    assert!(v.compare(&w));
    assert_eq!(v.display(), w.display());
}

#[test]
fn equality_operator_is_the_equality_of_values() {
    assert!(whole(1) == rat(1, 1));
    assert!(whole(1) != rat(1, 2));
    assert!(text("a") == text("a"));
    assert!(*finite(vec![whole(1), whole(2)]) == *finite(vec![whole(2), whole(1)]));
    assert!(*finite(vec![whole(1)]) != named(InfiniteSet::Nat));
}

#[test]
fn the_pool_holds_each_set_once() {
    let mut pool = SetPool::new();
    let sets = vec![
        finite(vec![whole(1), whole(2)]),
        finite(vec![whole(2), whole(1)]),
        Rc::new(named(InfiniteSet::Nat)),
        finite(vec![whole(3)]),
        Rc::new(named(InfiniteSet::Nat)),
        finite(vec![rat(1, 1), whole(2), whole(1)]),
        finite(vec![whole(3)]),
    ];
    let mut handed_out: Vec<Rc<CanonSet>> = Vec::new();
    for set in sets.iter() {
        handed_out.push(pool.intern(set));
    }
    assert_eq!(pool.len(), 3);
    assert!(Rc::ptr_eq(&handed_out[0], &sets[0]));
    assert!(Rc::ptr_eq(&handed_out[1], &sets[0]));
    assert!(Rc::ptr_eq(&handed_out[2], &sets[2]));
    assert!(Rc::ptr_eq(&handed_out[3], &sets[3]));
    assert!(Rc::ptr_eq(&handed_out[4], &sets[2]));
    assert!(Rc::ptr_eq(&handed_out[5], &sets[0]));
    assert!(Rc::ptr_eq(&handed_out[6], &sets[3]));
}

#[test]
fn a_finite_set_holds_no_value_twice() {
    let inner = Val::SetValue(finite(vec![whole(1), rat(1, 1), whole(2)]));
    let same = Val::SetValue(finite(vec![whole(2), complex((1, 1), (0, 1))]));
    let set = FiniteSet::new(vec![inner, text("a"), same, text("a"), whole(2), rat(4, 2)]);
    let held = set.to_vec();
    assert_eq!(held.len(), 3);
    for i in 0..held.len() {
        for j in 0..held.len() {
            assert_eq!(held[i].compare(&held[j]), i == j);
        }
    }
    set.confirm_proper();
    CanonSet::Finite(set).confirm_proper();
    Val::Tuple(Tuple(vec![held[0].clone(), held[2].clone()])).confirm_proper();
}
