//! Sets as types: finite sets of values, the named infinite sets, and
//! combinations of sets.

use crate::environment::share_all;
use crate::error::Error;
use crate::value::{clone_vals, share, val_equals, vals_view, Val, ValView};
use std::rc::Rc;
use crate::laws::{proper, proper_set};
use vstd::prelude::*;

verus! {

/// A named set.
#[derive(Debug, Clone, Copy, PartialEq, Eq, Structural)]
pub enum InfiniteSet {
    Univ,
    Nat,
    Int,
    Real,
    Complex,
    Str,
    Empty,
}

/// A finite set that holds its elements, none of them twice.
#[derive(Debug)]
pub struct FiniteSet {
    elements: Vec<Val>,
}

/// A set: finite, named, or combined from other sets.
#[derive(Debug)]
pub enum CanonSet {
    Finite(FiniteSet),
    Infinite(InfiniteSet),
    Union(Rc<CanonSet>, Rc<CanonSet>),
    Intersect(Rc<CanonSet>, Rc<CanonSet>),
    SymDiff(Rc<CanonSet>, Rc<CanonSet>),
    Exclusion(Rc<CanonSet>, Rc<CanonSet>),
    Complement(Rc<CanonSet>),
}

pub ghost enum SetView {
    Finite(Seq<ValView>),
    Infinite(InfiniteSet),
    Union(Box<SetView>, Box<SetView>),
    Intersect(Box<SetView>, Box<SetView>),
    SymDiff(Box<SetView>, Box<SetView>),
    Exclusion(Box<SetView>, Box<SetView>),
    Complement(Box<SetView>),
}

pub open spec fn set_view(s: CanonSet) -> SetView
    decreases s,
{
    match s {
        CanonSet::Finite(f) => SetView::Finite(finite_view(f)),
        CanonSet::Infinite(i) => SetView::Infinite(i),
        CanonSet::Union(a, b) => SetView::Union(Box::new(set_view(*a)), Box::new(set_view(*b))),
        CanonSet::Intersect(a, b) => SetView::Intersect(
            Box::new(set_view(*a)),
            Box::new(set_view(*b)),
        ),
        CanonSet::SymDiff(a, b) => SetView::SymDiff(Box::new(set_view(*a)), Box::new(set_view(*b))),
        CanonSet::Exclusion(a, b) => SetView::Exclusion(
            Box::new(set_view(*a)),
            Box::new(set_view(*b)),
        ),
        CanonSet::Complement(a) => SetView::Complement(Box::new(set_view(*a))),
    }
}

/// The elements of a finite set, in the order in which it holds them.
pub closed spec fn finite_view(f: FiniteSet) -> Seq<ValView>
    decreases f,
{
    vals_view(f.elements@)
}

impl View for CanonSet {
    type V = SetView;

    open spec fn view(&self) -> SetView {
        set_view(*self)
    }
}

impl View for FiniteSet {
    type V = Seq<ValView>;

    open spec fn view(&self) -> Seq<ValView> {
        finite_view(*self)
    }
}


/// Whether `v` equals one of the values of `y`.
pub open spec fn value_in(v: ValView, y: Seq<ValView>) -> bool
    decreases v, 1nat,
{
    exists|j: int| #![trigger y[j]] 0 <= j < y.len() && val_equals(v, y[j])
}

/// Whether every value of `x` equals one of `y`.
pub open spec fn finite_subset(x: Seq<ValView>, y: Seq<ValView>) -> bool
    decreases x, 0nat,
{
    forall|i: int| #![trigger x[i]] 0 <= i < x.len() ==> value_in(x[i], y)
}

/// Equality of sets, by their shape: two finite sets are equal where they
/// hold as many elements and every element of the first is in the second; two
/// named sets where they are the same; two combinations where they combine
/// equal sets in the same way.
pub open spec fn set_equals(a: SetView, b: SetView) -> bool
    decreases a, 0nat,
{
    match a {
        SetView::Finite(x) => b is Finite && x.len() == b->Finite_0.len() && finite_subset(
            x,
            b->Finite_0,
        ),
        SetView::Infinite(k) => b == a,
        SetView::Union(p, q) => b is Union && set_equals(*p, *b->Union_0) && set_equals(
            *q,
            *b->Union_1,
        ),
        SetView::Intersect(p, q) => b is Intersect && set_equals(*p, *b->Intersect_0)
            && set_equals(*q, *b->Intersect_1),
        SetView::SymDiff(p, q) => b is SymDiff && set_equals(*p, *b->SymDiff_0) && set_equals(
            *q,
            *b->SymDiff_1,
        ),
        SetView::Exclusion(p, q) => b is Exclusion && set_equals(*p, *b->Exclusion_0)
            && set_equals(*q, *b->Exclusion_1),
        SetView::Complement(p) => b is Complement && set_equals(*p, *b->Complement_0),
    }
}

/// Whether a finite set with these elements holds a value equal to `v`.
pub open spec fn finite_contains(elements: Seq<ValView>, v: ValView) -> bool {
    exists|i: int| #![trigger elements[i]] 0 <= i < elements.len() && val_equals(elements[i], v)
}

/// Whether `v` equals one of `ys`.
#[verifier::loop_isolation(false)]
pub(crate) fn is_among(v: &Val, ys: &Vec<Val>) -> (b: bool)
    ensures
        b == value_in(v@, vals_view(ys@)),
    decreases v, 1nat,
{
    let mut j: usize = 0;
    while j < ys.len()
        invariant
            j <= ys.len(),
            forall|k: int| #![trigger vals_view(ys@)[k]] 0 <= k < j ==> !val_equals(v@, vals_view(ys@)[k]),
        decreases ys.len() - j,
    {
        if v.compare(&ys[j]) {
            assert(val_equals(v@, vals_view(ys@)[j as int]));
            return true;
        }
        j += 1;
    }
    false
}

impl CanonSet {
    /// Whether two sets are equal.
    #[verifier::loop_isolation(false)]
    pub fn equals(&self, other: &CanonSet) -> (b: bool)
        ensures
            b == set_equals(self@, other@),
        decreases self, 0nat,
    {
        match self {
            CanonSet::Finite(x) => match other {
                CanonSet::Finite(y) => {
                    assert(x@ == vals_view(x.elements@) && y@ == vals_view(y.elements@));
                    assert(self@ == SetView::Finite(x@) && other@ == SetView::Finite(y@));
                    if x.elements.len() != y.elements.len() {
                        return false;
                    }
                    let mut i: usize = 0;
                    while i < x.elements.len()
                        invariant
                            i <= x.elements.len(),
                            forall|k: int| #![trigger x@[k]] 0 <= k < i ==> value_in(x@[k], y@),
                        decreases x.elements.len() - i,
                    {
                        if !is_among(&x.elements[i], &y.elements) {
                            assert(x@[i as int] == x.elements@[i as int]@);
                            assert(!value_in(x@[i as int], y@));
                            assert(!finite_subset(x@, y@));
                            assert(!set_equals(self@, other@));
                            return false;
                        }
                        assert(x@[i as int] == x.elements@[i as int]@);
                        i += 1;
                    }
                    assert(finite_subset(x@, y@));
                    assert(set_equals(self@, other@));
                    true
                },
                _ => false,
            },
            CanonSet::Infinite(k) => match other {
                CanonSet::Infinite(l) => *k == *l,
                _ => false,
            },
            CanonSet::Union(p, q) => match other {
                CanonSet::Union(r, s) => p.equals(r) && q.equals(s),
                _ => false,
            },
            CanonSet::Intersect(p, q) => match other {
                CanonSet::Intersect(r, s) => p.equals(r) && q.equals(s),
                _ => false,
            },
            CanonSet::SymDiff(p, q) => match other {
                CanonSet::SymDiff(r, s) => p.equals(r) && q.equals(s),
                _ => false,
            },
            CanonSet::Exclusion(p, q) => match other {
                CanonSet::Exclusion(r, s) => p.equals(r) && q.equals(s),
                _ => false,
            },
            CanonSet::Complement(p) => match other {
                CanonSet::Complement(r) => p.equals(r),
                _ => false,
            },
        }
    }
}


/// The name of a named set.
pub open spec fn infinite_name(s: InfiniteSet) -> Seq<char> {
    match s {
        InfiniteSet::Univ => "Univ"@,
        InfiniteSet::Nat => "Nat"@,
        InfiniteSet::Int => "Int"@,
        InfiniteSet::Real => "Real"@,
        InfiniteSet::Complex => "Complex"@,
        InfiniteSet::Str => "Str"@,
        InfiniteSet::Empty => "Empty"@,
    }
}

/// Membership in a named set. The natural numbers are the integers from 0
/// on, written as an integer, as a fraction over 1 or as a complex number
/// with such a real part and no imaginary part; the integers and the reals
/// likewise; every number is a complex number; the strings are the texts.
pub open spec fn infinite_contains(s: InfiniteSet, v: ValView) -> bool {
    match s {
        InfiniteSet::Univ => true,
        InfiniteSet::Nat => match v {
            ValView::Integer(i) => i >= 0,
            ValView::Rational(q) => q.den == 1 && q.num >= 0,
            ValView::Complex(c) => c.im.num == 0 && c.re.den == 1 && c.re.num >= 0,
            _ => false,
        },
        InfiniteSet::Int => match v {
            ValView::Integer(_) => true,
            ValView::Rational(q) => q.den == 1,
            ValView::Complex(c) => c.im.num == 0 && c.re.den == 1,
            _ => false,
        },
        InfiniteSet::Real => match v {
            ValView::Integer(_) => true,
            ValView::Rational(_) => true,
            ValView::Complex(c) => c.im.num == 0,
            _ => false,
        },
        InfiniteSet::Complex => v is Integer || v is Rational || v is Complex,
        InfiniteSet::Str => v is Text,
        InfiniteSet::Empty => false,
    }
}

pub open spec fn infinite_is_finite(s: InfiniteSet) -> bool {
    s == InfiniteSet::Empty
}

pub open spec fn infinite_is_countable(s: InfiniteSet) -> bool {
    s == InfiniteSet::Nat || s == InfiniteSet::Int || s == InfiniteSet::Str || s
        == InfiniteSet::Empty
}

/// Membership in a set; not defined yet for combinations of sets.
pub open spec fn set_contains(s: SetView, v: ValView) -> Result<bool, Error> {
    match s {
        SetView::Finite(elements) => Ok(finite_contains(elements, v)),
        SetView::Infinite(k) => Ok(infinite_contains(k, v)),
        _ => Err(Error::NotYetImplemented),
    }
}

pub open spec fn set_is_finite(s: SetView) -> Result<bool, Error> {
    match s {
        SetView::Finite(_) => Ok(true),
        SetView::Infinite(k) => Ok(infinite_is_finite(k)),
        _ => Err(Error::NotYetImplemented),
    }
}

pub open spec fn set_is_countable(s: SetView) -> Result<bool, Error> {
    match s {
        SetView::Finite(_) => Ok(true),
        SetView::Infinite(k) => Ok(infinite_is_countable(k)),
        _ => Err(Error::NotYetImplemented),
    }
}

/// Whether the first set is within the second, which is decided for two
/// finite sets only, and there by their equality.
pub open spec fn set_is_subset(a: SetView, b: SetView) -> Result<bool, Error> {
    if a is Finite && b is Finite {
        Ok(set_equals(a, b))
    } else {
        Err(Error::NotYetImplemented)
    }
}

/// The values of `s` without those that equal an earlier one.
pub open spec fn dedup(s: Seq<ValView>) -> Seq<ValView>
    decreases s.len(),
{
    if s.len() == 0 {
        Seq::empty()
    } else {
        let init = dedup(s.drop_last());
        if finite_contains(init, s.last()) {
            init
        } else {
            init.push(s.last())
        }
    }
}

/// Whether no value equals one before it.
pub open spec fn distinct(s: Seq<ValView>) -> bool {
    forall|i: int, j: int| #![trigger s[i], s[j]] 0 <= i < j < s.len() ==> !val_equals(s[i], s[j])
}

/// What `dedup` keeps is distinct.
pub proof fn lemma_dedup_distinct(s: Seq<ValView>)
    ensures
        distinct(dedup(s)),
        dedup(s).len() <= s.len(),
    decreases s.len(),
{
    if s.len() > 0 {
        let init = dedup(s.drop_last());
        lemma_dedup_distinct(s.drop_last());
        if !finite_contains(init, s.last()) {
            let out = init.push(s.last());
            assert forall|i: int, j: int| 0 <= i < j < out.len() implies !val_equals(
                out[i],
                out[j],
            ) by {
                if j < init.len() {
                    assert(out[i] == init[i] && out[j] == init[j]);
                } else {
                    assert(out[i] == init[i]);
                }
            }
        }
    }
}

/// What `dedup` keeps are values that it was given.
pub proof fn lemma_dedup_keeps_given_values(s: Seq<ValView>)
    ensures
        forall|k: int| 0 <= k < dedup(s).len() ==> s.contains(#[trigger] dedup(s)[k]),
    decreases s.len(),
{
    if s.len() > 0 {
        let init = dedup(s.drop_last());
        lemma_dedup_keeps_given_values(s.drop_last());
        assert forall|k: int| 0 <= k < dedup(s).len() implies s.contains(
            #[trigger] dedup(s)[k],
        ) by {
            if k < init.len() {
                assert(dedup(s)[k] == init[k]);
                assert(s.drop_last().contains(init[k]));
                let m = choose|m: int| 0 <= m < s.drop_last().len() && s.drop_last()[m] == init[k];
                assert(s[m] == init[k]);
            } else {
                assert(dedup(s)[k] == s.last());
                assert(s[s.len() - 1] == s.last());
            }
        }
    }
}

/// What every kind of set answers.
pub trait SetLike {
    spec fn finite_spec(&self) -> Result<bool, Error>;

    spec fn countable_spec(&self) -> Result<bool, Error>;

    spec fn contains_spec(&self, v: ValView) -> Result<bool, Error>;

    spec fn subset_spec(&self, other: SetView) -> Result<bool, Error>;

    fn is_finite(&self) -> (r: Result<bool, Error>)
        ensures
            r == self.finite_spec(),
    ;

    fn is_countable(&self) -> (r: Result<bool, Error>)
        ensures
            r == self.countable_spec(),
    ;

    fn contains(&self, other: &Val) -> (r: Result<bool, Error>)
        ensures
            r == self.contains_spec(other@),
    ;

    /// Whether `self` is within `other`.
    fn is_subset(&self, other: &Rc<CanonSet>) -> (r: Result<bool, Error>)
        ensures
            r == self.subset_spec(other@),
    ;
}

impl InfiniteSet {
    pub fn name(&self) -> (r: String)
        ensures
            r@ == infinite_name(*self),
    {
        String::from_str(
            match self {
                InfiniteSet::Univ => "Univ",
                InfiniteSet::Nat => "Nat",
                InfiniteSet::Int => "Int",
                InfiniteSet::Real => "Real",
                InfiniteSet::Complex => "Complex",
                InfiniteSet::Str => "Str",
                InfiniteSet::Empty => "Empty",
            },
        )
    }

    /// Whether the named set holds the value.
    pub fn holds(&self, other: &Val) -> (b: bool)
        ensures
            b == infinite_contains(*self, other@),
    {
        match self {
            InfiniteSet::Univ => true,
            InfiniteSet::Nat => match other {
                Val::Integer(i) => !i.is_negative(),
                Val::Rational(q) => q.is_integer() && !q.is_negative(),
                Val::Complex(c) => c.im.is_zero() && c.re.is_integer() && !c.re.is_negative(),
                _ => false,
            },
            InfiniteSet::Int => match other {
                Val::Integer(_) => true,
                Val::Rational(q) => q.is_integer(),
                Val::Complex(c) => c.im.is_zero() && c.re.is_integer(),
                _ => false,
            },
            InfiniteSet::Real => match other {
                Val::Integer(_) => true,
                Val::Rational(_) => true,
                Val::Complex(c) => c.im.is_zero(),
                _ => false,
            },
            InfiniteSet::Complex => other.is_num(),
            InfiniteSet::Str => other.is_str(),
            InfiniteSet::Empty => false,
        }
    }
}

impl SetLike for InfiniteSet {
    open spec fn finite_spec(&self) -> Result<bool, Error> {
        Ok(infinite_is_finite(*self))
    }

    open spec fn countable_spec(&self) -> Result<bool, Error> {
        Ok(infinite_is_countable(*self))
    }

    open spec fn contains_spec(&self, v: ValView) -> Result<bool, Error> {
        Ok(infinite_contains(*self, v))
    }

    open spec fn subset_spec(&self, other: SetView) -> Result<bool, Error> {
        Err(Error::NotYetImplemented)
    }

    fn is_finite(&self) -> (r: Result<bool, Error>) {
        match self {
            InfiniteSet::Empty => Ok(true),
            _ => Ok(false),
        }
    }

    fn is_countable(&self) -> (r: Result<bool, Error>) {
        match self {
            InfiniteSet::Nat | InfiniteSet::Int | InfiniteSet::Str | InfiniteSet::Empty => Ok(true),
            _ => Ok(false),
        }
    }

    fn contains(&self, other: &Val) -> (r: Result<bool, Error>) {
        Ok(self.holds(other))
    }

    fn is_subset(&self, other: &Rc<CanonSet>) -> (r: Result<bool, Error>) {
        Err(Error::NotYetImplemented)
    }
}

/// Whether one of `xs` equals `v`.
#[verifier::loop_isolation(false)]
pub(crate) fn any_equals(xs: &Vec<Val>, v: &Val) -> (b: bool)
    ensures
        b == finite_contains(vals_view(xs@), v@),
{
    let mut i: usize = 0;
    while i < xs.len()
        invariant
            i <= xs.len(),
            forall|k: int|
                #![trigger vals_view(xs@)[k]]
                0 <= k < i ==> !val_equals(vals_view(xs@)[k], v@),
        decreases xs.len() - i,
    {
        if xs[i].compare(v) {
            assert(val_equals(vals_view(xs@)[i as int], v@));
            return true;
        }
        i += 1;
    }
    false
}

impl FiniteSet {
    /// No element equals one before it.
    #[verifier::type_invariant]
    closed spec fn holds_each_once(&self) -> bool {
        distinct(vals_view(self.elements@))
    }

    /// The set of the given values; of values that are equal the first stays.
    #[verifier::loop_isolation(false)]
    pub fn new(elements: Vec<Val>) -> (r: Self)
        ensures
            r@ == dedup(vals_view(elements@)),
            distinct(r@),
    {
        proof {
            lemma_dedup_distinct(vals_view(elements@));
        }
        let ghost all = vals_view(elements@);
        let mut kept: Vec<Val> = Vec::new();
        let mut i: usize = 0;
        assert(all.take(0) =~= Seq::empty());
        assert(vals_view(kept@) =~= Seq::empty());
        while i < elements.len()
            invariant
                i <= elements.len(),
                vals_view(kept@) == dedup(all.take(i as int)),
            decreases elements.len() - i,
        {
            proof {
                assert(all.take(i as int + 1).drop_last() =~= all.take(i as int));
                assert(all.take(i as int + 1).last() == elements@[i as int]@);
            }
            if !any_equals(&kept, &elements[i]) {
                let ghost before = vals_view(kept@);
                kept.push(elements[i].clone());
                assert(vals_view(kept@) =~= before.push(elements@[i as int]@));
            }
            i += 1;
        }
        assert(all.take(elements.len() as int) =~= all);
        FiniteSet { elements: kept }
    }

    /// The number of elements.
    pub fn len(&self) -> (n: usize)
        ensures
            n == self@.len(),
    {
        self.elements.len()
    }

    /// The elements, in the order in which the set holds them: no two of
    /// them are equal.
    pub fn to_vec(&self) -> (r: Vec<Val>)
        ensures
            vals_view(r@) == self@,
            distinct(self@),
    {
        proof {
            use_type_invariant(self);
        }
        clone_vals(&self.elements)
    }

    /// Makes known what holds of every finite set: it holds distinct
    /// values, and so does every finite set within them, all the way down.
    #[verifier::loop_isolation(false)]
    pub fn confirm_proper(&self)
        ensures
            proper_set(SetView::Finite(self@)),
        decreases self, 1nat,
    {
        proof {
            use_type_invariant(self);
        }
        let mut i: usize = 0;
        while i < self.elements.len()
            invariant
                i <= self.elements.len(),
                forall|k: int| #![trigger self@[k]] 0 <= k < i ==> proper(self@[k]),
            decreases self.elements.len() - i,
        {
            self.elements[i].confirm_proper();
            assert(self@[i as int] == self.elements@[i as int]@);
            i += 1;
        }
    }

    /// Whether the set holds a value equal to `other`.
    pub fn holds(&self, other: &Val) -> (b: bool)
        ensures
            b == finite_contains(self@, other@),
    {
        any_equals(&self.elements, other)
    }

    /// The sum of the hashes of the elements, modulo 2^64.
    pub(crate) fn hash_elements(&self) -> (r: u64)
        ensures
            r == crate::hashing::hash_sum(crate::hashing::hashes_of(self@)),
        decreases self, 4nat,
    {
        crate::hashing::sum_hashes(&self.elements)
    }

    /// The text of the set: its elements in braces.
    pub(crate) fn display(&self) -> (r: String)
        ensures
            r@ == "{"@ + crate::render::render_vals(self@, 0) + "}"@,
        decreases self, 1nat,
    {
        let mut out = String::from_str("{");
        out.append(crate::render::display_vals(&self.elements, 0).as_str());
        out.append("}");
        out
    }
}

impl SetLike for FiniteSet {
    open spec fn finite_spec(&self) -> Result<bool, Error> {
        Ok(true)
    }

    open spec fn countable_spec(&self) -> Result<bool, Error> {
        Ok(true)
    }

    open spec fn contains_spec(&self, v: ValView) -> Result<bool, Error> {
        Ok(finite_contains(self@, v))
    }

    open spec fn subset_spec(&self, other: SetView) -> Result<bool, Error> {
        set_is_subset(SetView::Finite(self@), other)
    }

    fn is_finite(&self) -> (r: Result<bool, Error>) {
        Ok(true)
    }

    fn is_countable(&self) -> (r: Result<bool, Error>) {
        Ok(true)
    }

    fn contains(&self, other: &Val) -> (r: Result<bool, Error>) {
        Ok(self.holds(other))
    }

    fn is_subset(&self, other: &Rc<CanonSet>) -> (r: Result<bool, Error>) {
        match &**other {
            CanonSet::Finite(set) => {
                proof {
                    use_type_invariant(self);
                }
                let copy = FiniteSet { elements: clone_vals(&self.elements) };
                assert(copy@ == self@);
                let mine = CanonSet::Finite(copy);
                assert(mine@ == SetView::Finite(self@));
                assert(other@ is Finite);
                Ok(mine.equals(other))
            },
            _ => Err(Error::NotYetImplemented),
        }
    }
}

impl SetLike for CanonSet {
    open spec fn finite_spec(&self) -> Result<bool, Error> {
        set_is_finite(self@)
    }

    open spec fn countable_spec(&self) -> Result<bool, Error> {
        set_is_countable(self@)
    }

    open spec fn contains_spec(&self, v: ValView) -> Result<bool, Error> {
        set_contains(self@, v)
    }

    open spec fn subset_spec(&self, other: SetView) -> Result<bool, Error> {
        set_is_subset(self@, other)
    }

    fn is_finite(&self) -> (r: Result<bool, Error>) {
        match self {
            CanonSet::Finite(set) => set.is_finite(),
            CanonSet::Infinite(set) => set.is_finite(),
            _ => Err(Error::NotYetImplemented),
        }
    }

    fn is_countable(&self) -> (r: Result<bool, Error>) {
        match self {
            CanonSet::Finite(set) => set.is_countable(),
            CanonSet::Infinite(set) => set.is_countable(),
            _ => Err(Error::NotYetImplemented),
        }
    }

    fn contains(&self, other: &Val) -> (r: Result<bool, Error>) {
        match self {
            CanonSet::Finite(set) => set.contains(other),
            CanonSet::Infinite(set) => set.contains(other),
            _ => Err(Error::NotYetImplemented),
        }
    }

    fn is_subset(&self, other: &Rc<CanonSet>) -> (r: Result<bool, Error>) {
        match self {
            CanonSet::Finite(set) => set.is_subset(other),
            _ => Err(Error::NotYetImplemented),
        }
    }
}

/// The canonical form of a set, which for now is the set itself.
pub fn canon(set: Rc<CanonSet>) -> (r: Rc<CanonSet>)
    ensures
        r == set,
{
    set
}


/// The first place from `start` on where `pool` holds a set equal to `s`.
pub open spec fn pool_find_from(pool: Seq<SetView>, s: SetView, start: int) -> Option<int>
    decreases pool.len() - start,
{
    if start < 0 || start >= pool.len() {
        None
    } else if set_equals(pool[start], s) {
        Some(start)
    } else {
        pool_find_from(pool, s, start + 1)
    }
}

/// The first place where `pool` holds a set equal to `s`.
pub open spec fn pool_find(pool: Seq<SetView>, s: SetView) -> Option<int> {
    pool_find_from(pool, s, 0)
}

/// What interning `s` hands out, and the pool after it: the pool's first set
/// equal to `s` and the pool as it was, or `s` itself and the pool with `s`
/// added.
pub open spec fn spec_intern(pool: Seq<SetView>, s: SetView) -> (SetView, Seq<SetView>) {
    match pool_find(pool, s) {
        Some(k) => (pool[k], pool),
        None => (s, pool.push(s)),
    }
}

/// Whether no set of the pool equals one before it.
pub open spec fn held_once(pool: Seq<SetView>) -> bool {
    forall|i: int, j: int|
        #![trigger pool[i], pool[j]]
        0 <= i < j < pool.len() ==> !set_equals(pool[i], pool[j])
}

/// Whether no set from `start` on equals `s`.
proof fn lemma_not_found_from(pool: Seq<SetView>, s: SetView, start: int)
    requires
        0 <= start,
        pool_find_from(pool, s, start) is None,
    ensures
        forall|k: int| #![trigger pool[k]] start <= k < pool.len() ==> !set_equals(pool[k], s),
    decreases pool.len() - start,
{
    if start < pool.len() {
        lemma_not_found_from(pool, s, start + 1);
    }
}

/// Interning a set in a pool that holds each set once gives such a pool.
pub proof fn lemma_intern_holds_each_once(pool: Seq<SetView>, s: SetView)
    requires
        held_once(pool),
    ensures
        held_once(spec_intern(pool, s).1),
{
    if pool_find(pool, s) is None {
        lemma_not_found_from(pool, s, 0);
        let after = pool.push(s);
        assert forall|i: int, j: int| #![trigger after[i], after[j]] 0 <= i < j < after.len() implies !set_equals(
            after[i],
            after[j],
        ) by {
            assert(after[i] == pool[i]);
            if j < pool.len() {
                assert(after[j] == pool[j]);
            }
        }
    }
}

/// The sets that an interpreter has met, each held once.
#[derive(Debug)]
pub struct SetPool {
    pool: Vec<Rc<CanonSet>>,
}

impl View for SetPool {
    type V = Seq<SetView>;

    open spec fn view(&self) -> Seq<SetView> {
        Seq::new(self.handles().len(), |i: int| set_view(*self.handles()[i]))
    }
}

impl SetPool {
    /// The sets held, as the pool shares them.
    pub closed spec fn handles(&self) -> Seq<Rc<CanonSet>> {
        self.pool@
    }

    /// No set equals one before it.
    #[verifier::type_invariant]
    closed spec fn holds_each_once(&self) -> bool {
        held_once(self@)
    }

    pub fn new() -> (r: Self)
        ensures
            r.handles() == Seq::<Rc<CanonSet>>::empty(),
    {
        SetPool { pool: Vec::new() }
    }

    /// The number of sets held.
    pub fn len(&self) -> (n: usize)
        ensures
            n == self.handles().len(),
    {
        self.pool.len()
    }

    /// Hands out the pool's own set equal to `set`. Where the pool holds
    /// none, `set` itself joins the pool and is handed out.
    pub fn intern(&mut self, set: &Rc<CanonSet>) -> (r: Rc<CanonSet>)
        ensures
            match pool_find(old(self)@, set@) {
                Some(k) => final(self).handles() == old(self).handles() && r == old(
                    self,
                ).handles()[k],
                None => final(self).handles() == old(self).handles().push(*set) && r == *set,
            },
            r@ == spec_intern(old(self)@, set@).0,
            final(self)@ == spec_intern(old(self)@, set@).1,
            held_once(final(self)@),
    {
        proof {
            use_type_invariant(&*self);
            lemma_intern_holds_each_once(self@, set@);
        }
        let mut i: usize = 0;
        while i < self.pool.len()
            invariant
                i <= self.pool.len(),
                self.pool@ == old(self).pool@,
                held_once(old(self)@),
                pool_find(old(self)@, set@) == pool_find_from(old(self)@, set@, i as int),
            decreases self.pool.len() - i,
        {
            if self.pool[i].equals(set) {
                assert(self@[i as int] == self.pool@[i as int]@);
                return share(&self.pool[i]);
            }
            assert(self@[i as int] == self.pool@[i as int]@);
            i += 1;
        }
        let mut held = share_all(&self.pool);
        held.push(share(set));
        assert(Seq::new(held@.len(), |k: int| set_view(*held@[k])) =~= old(self)@.push(set@));
        self.pool = held;
        share(set)
    }
}

impl CanonSet {
    /// Makes known what holds of every set: each finite set within it, all
    /// the way down, holds distinct values.
    pub fn confirm_proper(&self)
        ensures
            proper_set(self@),
        decreases self, 2nat,
    {
        match self {
            CanonSet::Finite(f) => f.confirm_proper(),
            CanonSet::Infinite(_) => {},
            CanonSet::Union(p, q) => {
                p.confirm_proper();
                q.confirm_proper();
            },
            CanonSet::Intersect(p, q) => {
                p.confirm_proper();
                q.confirm_proper();
            },
            CanonSet::SymDiff(p, q) => {
                p.confirm_proper();
                q.confirm_proper();
            },
            CanonSet::Exclusion(p, q) => {
                p.confirm_proper();
                q.confirm_proper();
            },
            CanonSet::Complement(p) => p.confirm_proper(),
        }
    }
}

impl PartialEq for CanonSet {
    /// Whether two sets are equal.
    fn eq(&self, other: &CanonSet) -> (b: bool) {
        self.equals(other)
    }
}

impl vstd::std_specs::cmp::PartialEqSpecImpl for CanonSet {
    open spec fn obeys_eq_spec() -> bool {
        true
    }

    open spec fn eq_spec(&self, other: &CanonSet) -> bool {
        set_equals(self@, other@)
    }
}

} // verus!
