//! Runtime values: numbers, texts, booleans, tuples, sets and functions.

use crate::ast::{expr_view, Expr, ExprView};
use crate::number::{complex_of_int, complex_of_ratio, Complex, ComplexView, Integer, Ratio, Rational};
use crate::set::{set_equals, set_view, CanonSet, SetView};
use crate::laws::proper;
use std::rc::Rc;
use vstd::prelude::*;

verus! {

/// A value of the language.
#[derive(Debug)]
pub enum Val {
    Integer(Integer),
    Rational(Rational),
    Complex(Complex),
    Text(String),
    Boolean(bool),
    Tuple(Tuple),
    SetValue(Rc<CanonSet>),
    Function(Func),
}

/// An ordered sequence of values.
#[derive(Debug)]
pub struct Tuple(pub Vec<Val>);

/// A closure: parameter names, a body, the scope it was made in and the set
/// its results belong to.
#[derive(Debug)]
pub struct Func {
    pub env: usize,
    pub arg_names: Vec<String>,
    pub expr: Rc<Expr>,
    pub codomain: Rc<CanonSet>,
}

/// A value as mathematics sees it.
pub ghost enum ValView {
    Integer(int),
    Rational(Ratio),
    Complex(ComplexView),
    Text(Seq<char>),
    Boolean(bool),
    Tuple(Seq<ValView>),
    SetValue(SetView),
    Function(FuncView),
}

pub ghost struct FuncView {
    pub env: nat,
    pub arg_names: Seq<Seq<char>>,
    pub expr: Box<ExprView>,
    pub codomain: SetView,
}

/// The views of the arguments of a call.
pub open spec fn opt_vals_view(args: Seq<Option<Val>>) -> Seq<Option<ValView>> {
    Seq::new(
        args.len(),
        |i: int|
            match args[i] {
                Some(v) => Some(v@),
                None => None,
            },
    )
}

/// The texts of a sequence of strings.
pub open spec fn names_view(names: Seq<String>) -> Seq<Seq<char>> {
    Seq::new(names.len(), |i: int| names[i]@)
}

pub open spec fn val_view(v: Val) -> ValView
    decreases v,
{
    match v {
        Val::Integer(i) => ValView::Integer(i@),
        Val::Rational(q) => ValView::Rational(q@),
        Val::Complex(c) => ValView::Complex(c@),
        Val::Text(s) => ValView::Text(s@),
        Val::Boolean(b) => ValView::Boolean(b),
        Val::Tuple(t) => ValView::Tuple(vals_view(t.0@)),
        Val::SetValue(s) => ValView::SetValue(set_view(*s)),
        Val::Function(f) => ValView::Function(
            FuncView {
                env: f.env as nat,
                arg_names: names_view(f.arg_names@),
                expr: Box::new(expr_view(*f.expr)),
                codomain: set_view(*f.codomain),
            },
        ),
    }
}

pub open spec fn vals_view(s: Seq<Val>) -> Seq<ValView>
    decreases s,
{
    Seq::new(
        s.len(),
        |i: int|
            if 0 <= i < s.len() {
                val_view(s[i])
            } else {
                arbitrary()
            },
    )
}

impl View for Val {
    type V = ValView;

    open spec fn view(&self) -> ValView {
        val_view(*self)
    }
}

impl View for Tuple {
    type V = Seq<ValView>;

    open spec fn view(&self) -> Seq<ValView> {
        vals_view(self.0@)
    }
}

impl View for Func {
    type V = FuncView;

    open spec fn view(&self) -> FuncView {
        FuncView {
            env: self.env as nat,
            arg_names: names_view(self.arg_names@),
            expr: Box::new(expr_view(*self.expr)),
            codomain: set_view(*self.codomain),
        }
    }
}


/// Another handle on the same value.
pub(crate) fn share<T>(rc: &Rc<T>) -> (r: Rc<T>)
    ensures
        r == rc,
{
    rc.clone()
}

pub(crate) fn clone_names(names: &Vec<String>) -> (r: Vec<String>)
    ensures
        r@ == names@,
{
    let r = names.clone();
    assert(r@ =~= names@);
    r
}

#[verifier::loop_isolation(false)]
pub(crate) fn clone_val(v: &Val) -> (r: Val)
    ensures
        r@ == v@,
    decreases v,
{
    match v {
        Val::Integer(i) => Val::Integer(i.clone()),
        Val::Rational(q) => Val::Rational(q.clone()),
        Val::Complex(c) => Val::Complex(c.clone()),
        Val::Text(s) => Val::Text(s.clone()),
        Val::Boolean(b) => Val::Boolean(*b),
        Val::Tuple(t) => {
            let mut out: Vec<Val> = Vec::new();
            let mut i: usize = 0;
            while i < t.0.len()
                invariant
                    i <= t.0.len(),
                    out.len() == i,
                    forall|j: int| 0 <= j < i ==> out@[j]@ == t.0@[j]@,
                decreases t.0.len() - i,
            {
                let c = clone_val(&t.0[i]);
                out.push(c);
                i += 1;
            }
            assert(vals_view(out@) =~= vals_view(t.0@));
            Val::Tuple(Tuple(out))
        },
        Val::SetValue(s) => Val::SetValue(share(s)),
        Val::Function(f) => Val::Function(
            Func {
                env: f.env,
                arg_names: clone_names(&f.arg_names),
                expr: share(&f.expr),
                codomain: share(&f.codomain),
            },
        ),
    }
}

impl Clone for Val {
    fn clone(&self) -> (r: Self)
        ensures
            r@ == self@,
    {
        clone_val(self)
    }
}


impl Clone for Tuple {
    fn clone(&self) -> (r: Self)
        ensures
            r@ == self@,
    {
        Tuple(clone_vals(&self.0))
    }
}

pub(crate) fn clone_vals(items: &Vec<Val>) -> (r: Vec<Val>)
    ensures
        vals_view(r@) == vals_view(items@),
{
    let mut out: Vec<Val> = Vec::new();
    let mut i: usize = 0;
    while i < items.len()
        invariant
            i <= items.len(),
            out.len() == i,
            forall|j: int| 0 <= j < i ==> out@[j]@ == items@[j]@,
        decreases items.len() - i,
    {
        out.push(clone_val(&items[i]));
        i += 1;
    }
    assert(vals_view(out@) =~= vals_view(items@));
    out
}

impl Clone for Func {
    fn clone(&self) -> (r: Self)
        ensures
            r@ == self@,
    {
        Func {
            env: self.env,
            arg_names: clone_names(&self.arg_names),
            expr: share(&self.expr),
            codomain: share(&self.codomain),
        }
    }
}

/// A number as a complex number; `None` for what is not a number.
pub open spec fn promote(v: ValView) -> Option<ComplexView> {
    match v {
        ValView::Integer(i) => Some(complex_of_int(i)),
        ValView::Rational(q) => Some(complex_of_ratio(q)),
        ValView::Complex(c) => Some(c),
        _ => None,
    }
}

/// Equality of values. Numbers of different kinds are equal where they are
/// equal as complex numbers; texts and booleans where they are the same;
/// tuples where they are equal place by place; sets where they are equal as
/// sets; any two functions are equal. Values of different kinds are not.
pub open spec fn val_equals(a: ValView, b: ValView) -> bool
    decreases a, 0nat,
{
    match a {
        ValView::Text(x) => b == a,
        ValView::Boolean(x) => b == a,
        ValView::Tuple(x) => b is Tuple && tuples_equal(x, b->Tuple_0),
        ValView::SetValue(x) => b is SetValue && set_equals(x, b->SetValue_0),
        ValView::Function(_) => b is Function,
        _ => promote(b) is Some && promote(a) == promote(b),
    }
}

pub open spec fn tuples_equal(x: Seq<ValView>, y: Seq<ValView>) -> bool
    decreases x, 0nat,
{
    x.len() == y.len() && forall|i: int| #![trigger x[i]] 0 <= i < x.len() ==> val_equals(x[i], y[i])
}

impl Val {
    pub fn is_num(&self) -> (b: bool)
        ensures
            b == (self@ is Integer || self@ is Rational || self@ is Complex),
    {
        match self {
            Val::Integer(_) | Val::Rational(_) | Val::Complex(_) => true,
            _ => false,
        }
    }

    pub fn is_str(&self) -> (b: bool)
        ensures
            b == (self@ is Text),
    {
        match self {
            Val::Text(_) => true,
            _ => false,
        }
    }

    pub fn is_tup(&self) -> (b: bool)
        ensures
            b == (self@ is Tuple),
    {
        match self {
            Val::Tuple(_) => true,
            _ => false,
        }
    }

    pub fn is_set(&self) -> (b: bool)
        ensures
            b == (self@ is SetValue),
    {
        match self {
            Val::SetValue(_) => true,
            _ => false,
        }
    }

    /// Makes known what holds of every value: each finite set within it,
    /// all the way down, holds distinct values. On values known to be such
    /// equality is symmetric and transitive, and equal values hash alike.
    #[verifier::loop_isolation(false)]
    pub fn confirm_proper(&self)
        ensures
            proper(self@),
        decreases self, 0nat,
    {
        match self {
            Val::Tuple(t) => {
                let mut i: usize = 0;
                while i < t.0.len()
                    invariant
                        i <= t.0.len(),
                        forall|k: int| #![trigger t@[k]] 0 <= k < i ==> proper(t@[k]),
                    decreases t.0.len() - i,
                {
                    t.0[i].confirm_proper();
                    assert(t@[i as int] == t.0@[i as int]@);
                    i += 1;
                }
            },
            Val::SetValue(s) => s.confirm_proper(),
            _ => {},
        }
    }

    /// The value as a complex number, where it is a number.
    pub fn to_complex(&self) -> (r: Option<Complex>)
        ensures
            match r {
                Some(c) => promote(self@) == Some(c@),
                None => promote(self@) is None,
            },
    {
        match self {
            Val::Integer(i) => Some(Complex::from_integer(i)),
            Val::Rational(q) => Some(Complex::from_rational(q)),
            Val::Complex(c) => Some(c.clone()),
            _ => None,
        }
    }

    /// Whether two values are equal.
    #[verifier::loop_isolation(false)]
    pub fn compare(&self, other: &Val) -> (b: bool)
        ensures
            b == val_equals(self@, other@),
        decreases self, 0nat,
    {
        match self {
            Val::Text(x) => match other {
                Val::Text(y) => {
                    let same = *x == *y;
                    assert(same == (x@ == y@));
                    same
                },
                _ => false,
            },
            Val::Boolean(x) => match other {
                Val::Boolean(y) => *x == *y,
                _ => false,
            },
            Val::Tuple(x) => match other {
                Val::Tuple(y) => {
                    if x.0.len() != y.0.len() {
                        return false;
                    }
                    let mut i: usize = 0;
                    while i < x.0.len()
                        invariant
                            i <= x.0.len(),
                            forall|j: int| #![trigger x@[j]] 0 <= j < i ==> val_equals(x@[j], y@[j]),
                        decreases x.0.len() - i,
                    {
                        if !x.0[i].compare(&y.0[i]) {
                            assert(x@[i as int] == x.0@[i as int]@);
                            assert(y@[i as int] == y.0@[i as int]@);
                            assert(!val_equals(x@[i as int], y@[i as int]));
                            assert(!tuples_equal(x@, y@));
                            return false;
                        }
                        i += 1;
                    }
                    assert(tuples_equal(x@, y@));
                    true
                },
                _ => false,
            },
            Val::SetValue(x) => match other {
                Val::SetValue(y) => x.equals(y),
                _ => false,
            },
            Val::Function(_) => match other {
                Val::Function(_) => true,
                _ => false,
            },
            _ => match (self.to_complex(), other.to_complex()) {
                (Some(a), Some(b)) => a.equals(&b),
                _ => false,
            },
        }
    }
}

impl PartialEq for Val {
    /// Whether two values are equal.
    fn eq(&self, other: &Val) -> (b: bool) {
        self.compare(other)
    }
}

impl vstd::std_specs::cmp::PartialEqSpecImpl for Val {
    open spec fn obeys_eq_spec() -> bool {
        true
    }

    open spec fn eq_spec(&self, other: &Val) -> bool {
        val_equals(self@, other@)
    }
}

} // verus!
