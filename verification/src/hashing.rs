//! Hashes of values, which agree with their equality: numbers are hashed as
//! complex numbers, whatever their kind.

use crate::number::{number_hash, Complex};
use crate::laws::{lemma_rest_is_held, proper, proper_set};
use crate::set::{distinct, finite_subset, set_equals, value_in, CanonSet, InfiniteSet, SetView};
use crate::value::{promote, tuples_equal, val_equals, vals_view, Val, ValView};
use std::collections::hash_map::DefaultHasher;
use std::hash::Hasher;
use vstd::bytes::{spec_u64_to_le_bytes, u64_to_le_bytes};
use vstd::prelude::*;
use vstd::std_specs::hash::DefaultHasherAdditionalSpecFns;
use vstd::string::StringSliceAdditionalSpecFns;

verus! {

/// The hash of what was written to a hasher, piece by piece.
pub open spec fn hash_of(pieces: Seq<Seq<u8>>) -> u64 {
    DefaultHasher::spec_finish(pieces)
}

/// The sum of the hashes, modulo 2^64.
pub open spec fn hash_sum(hashes: Seq<u64>) -> u64
    decreases hashes.len(),
{
    if hashes.len() == 0 {
        0
    } else {
        ((hash_sum(hashes.drop_last()) + hashes.last()) % 0x1_0000_0000_0000_0000) as u64
    }
}

pub open spec fn infinite_tag(k: InfiniteSet) -> u8 {
    match k {
        InfiniteSet::Univ => 0,
        InfiniteSet::Nat => 1,
        InfiniteSet::Int => 2,
        InfiniteSet::Real => 3,
        InfiniteSet::Complex => 4,
        InfiniteSet::Str => 5,
        InfiniteSet::Empty => 6,
    }
}

/// The hash of a value. A number is hashed as the complex number it equals;
/// a tuple by the hashes of its values in order; a finite set by the sum of
/// the hashes of its elements, in whatever order it holds them; every
/// function alike.
pub open spec fn spec_hash(v: ValView) -> u64
    decreases v, 0nat,
{
    match v {
        ValView::Integer(_) | ValView::Rational(_) | ValView::Complex(_) => number_hash(
            promote(v)->Some_0,
        ),
        ValView::Text(text) => hash_of(seq![vstd::utf8::encode_utf8(text)]),
        ValView::Boolean(b) => hash_of(
            seq![seq![if b {
                1u8
            } else {
                0u8
            }]],
        ),
        ValView::Tuple(items) => hash_of(hash_pieces(items)),
        ValView::SetValue(s) => spec_set_hash(s),
        ValView::Function(_) => 0,
    }
}

/// The hashes of the values.
pub open spec fn hashes_of(items: Seq<ValView>) -> Seq<u64>
    decreases items, 1nat,
{
    Seq::new(
        items.len(),
        |i: int|
            if 0 <= i < items.len() {
                spec_hash(items[i])
            } else {
                0
            },
    )
}

/// The hashes of the values as the pieces written to a hasher.
pub open spec fn hash_pieces(items: Seq<ValView>) -> Seq<Seq<u8>>
    decreases items, 2nat,
{
    Seq::new(items.len(), |i: int| spec_u64_to_le_bytes(hashes_of(items)[i]))
}

/// The hash of a set.
pub open spec fn spec_set_hash(s: SetView) -> u64
    decreases s, 0nat,
{
    match s {
        SetView::Finite(items) => hash_of(
            seq![
                seq![7u8],
                spec_u64_to_le_bytes(items.len() as u64),
                spec_u64_to_le_bytes(hash_sum(hashes_of(items))),
            ],
        ),
        SetView::Infinite(k) => hash_of(seq![seq![infinite_tag(k)]]),
        SetView::Union(a, b) => hash_of(
            seq![
                seq![8u8],
                spec_u64_to_le_bytes(spec_set_hash(*a)),
                spec_u64_to_le_bytes(spec_set_hash(*b)),
            ],
        ),
        SetView::Intersect(a, b) => hash_of(
            seq![
                seq![9u8],
                spec_u64_to_le_bytes(spec_set_hash(*a)),
                spec_u64_to_le_bytes(spec_set_hash(*b)),
            ],
        ),
        SetView::SymDiff(a, b) => hash_of(
            seq![
                seq![10u8],
                spec_u64_to_le_bytes(spec_set_hash(*a)),
                spec_u64_to_le_bytes(spec_set_hash(*b)),
            ],
        ),
        SetView::Exclusion(a, b) => hash_of(
            seq![
                seq![11u8],
                spec_u64_to_le_bytes(spec_set_hash(*a)),
                spec_u64_to_le_bytes(spec_set_hash(*b)),
            ],
        ),
        SetView::Complement(a) => hash_of(
            seq![seq![12u8], spec_u64_to_le_bytes(spec_set_hash(*a))],
        ),
    }
}


/// The hash of the pieces, written to a new hasher one after the other.
fn hash_all(pieces: &Vec<Vec<u8>>) -> (r: u64)
    ensures
        r == hash_of(Seq::new(pieces@.len(), |i: int| pieces@[i]@)),
{
    let mut hasher = DefaultHasher::new();
    let mut i: usize = 0;
    while i < pieces.len()
        invariant
            i <= pieces.len(),
            hasher@ == Seq::new(i as nat, |j: int| pieces@[j]@),
        decreases pieces.len() - i,
    {
        hasher.write(pieces[i].as_slice());
        assert(hasher@ =~= Seq::new((i + 1) as nat, |j: int| pieces@[j]@));
        i += 1;
    }
    hasher.finish()
}

fn tagged(tag: u8) -> (r: Vec<u8>)
    ensures
        r@ == seq![tag],
{
    let mut piece: Vec<u8> = Vec::new();
    piece.push(tag);
    assert(piece@ =~= seq![tag]);
    piece
}

/// The sum of the hashes of the values, modulo 2^64.
#[verifier::loop_isolation(false)]
pub(crate) fn sum_hashes(items: &Vec<Val>) -> (r: u64)
    ensures
        r == hash_sum(hashes_of(vals_view(items@))),
    decreases items, 3nat,
{
    let ghost all = hashes_of(vals_view(items@));
    let mut sum: u64 = 0;
    let mut i: usize = 0;
    assert(all.take(0) =~= Seq::<u64>::empty());
    while i < items.len()
        invariant
            i <= items.len(),
            all == hashes_of(vals_view(items@)),
            sum == hash_sum(all.take(i as int)),
        decreases items.len() - i,
    {
        let h = hash_value(&items[i]);
        proof {
            assert(all.take(i as int + 1).drop_last() =~= all.take(i as int));
            assert(all.take(i as int + 1).last() == h);
        }
        sum = sum.wrapping_add(h);
        i += 1;
    }
    assert(all.take(items.len() as int) =~= all);
    sum
}

fn hash_set(s: &CanonSet) -> (r: u64)
    ensures
        r == spec_set_hash(s@),
    decreases s, 2nat,
{
    let mut pieces: Vec<Vec<u8>> = Vec::new();
    match s {
        CanonSet::Finite(f) => {
            pieces.push(tagged(7));
            pieces.push(u64_to_le_bytes(f.len() as u64));
            pieces.push(u64_to_le_bytes(f.hash_elements()));
        },
        CanonSet::Infinite(k) => {
            pieces.push(
                tagged(
                    match k {
                        InfiniteSet::Univ => 0,
                        InfiniteSet::Nat => 1,
                        InfiniteSet::Int => 2,
                        InfiniteSet::Real => 3,
                        InfiniteSet::Complex => 4,
                        InfiniteSet::Str => 5,
                        InfiniteSet::Empty => 6,
                    },
                ),
            );
        },
        CanonSet::Union(a, b) => {
            pieces.push(tagged(8));
            pieces.push(u64_to_le_bytes(hash_set(a)));
            pieces.push(u64_to_le_bytes(hash_set(b)));
        },
        CanonSet::Intersect(a, b) => {
            pieces.push(tagged(9));
            pieces.push(u64_to_le_bytes(hash_set(a)));
            pieces.push(u64_to_le_bytes(hash_set(b)));
        },
        CanonSet::SymDiff(a, b) => {
            pieces.push(tagged(10));
            pieces.push(u64_to_le_bytes(hash_set(a)));
            pieces.push(u64_to_le_bytes(hash_set(b)));
        },
        CanonSet::Exclusion(a, b) => {
            pieces.push(tagged(11));
            pieces.push(u64_to_le_bytes(hash_set(a)));
            pieces.push(u64_to_le_bytes(hash_set(b)));
        },
        CanonSet::Complement(a) => {
            pieces.push(tagged(12));
            pieces.push(u64_to_le_bytes(hash_set(a)));
        },
    }
    let r = hash_all(&pieces);
    proof {
        let written = Seq::new(pieces@.len(), |i: int| pieces@[i]@);
        match s@ {
            SetView::Finite(items) => {
                assert(written =~= seq![
                    seq![7u8],
                    spec_u64_to_le_bytes(items.len() as u64),
                    spec_u64_to_le_bytes(hash_sum(hashes_of(items))),
                ]);
            },
            SetView::Infinite(k) => {
                assert(written =~= seq![seq![infinite_tag(k)]]);
            },
            SetView::Union(a, b) => {
                assert(written =~= seq![
                    seq![8u8],
                    spec_u64_to_le_bytes(spec_set_hash(*a)),
                    spec_u64_to_le_bytes(spec_set_hash(*b)),
                ]);
            },
            SetView::Intersect(a, b) => {
                assert(written =~= seq![
                    seq![9u8],
                    spec_u64_to_le_bytes(spec_set_hash(*a)),
                    spec_u64_to_le_bytes(spec_set_hash(*b)),
                ]);
            },
            SetView::SymDiff(a, b) => {
                assert(written =~= seq![
                    seq![10u8],
                    spec_u64_to_le_bytes(spec_set_hash(*a)),
                    spec_u64_to_le_bytes(spec_set_hash(*b)),
                ]);
            },
            SetView::Exclusion(a, b) => {
                assert(written =~= seq![
                    seq![11u8],
                    spec_u64_to_le_bytes(spec_set_hash(*a)),
                    spec_u64_to_le_bytes(spec_set_hash(*b)),
                ]);
            },
            SetView::Complement(a) => {
                assert(written =~= seq![seq![12u8], spec_u64_to_le_bytes(spec_set_hash(*a))]);
            },
        }
    }
    r
}

#[verifier::loop_isolation(false)]
fn hash_value(v: &Val) -> (r: u64)
    ensures
        r == spec_hash(v@),
    decreases v, 0nat,
{
    match v {
        Val::Text(text) => {
            let mut hasher = DefaultHasher::new();
            hasher.write(text.as_str().as_bytes());
            assert(hasher@ =~= seq![vstd::utf8::encode_utf8(text@)]);
            hasher.finish()
        },
        Val::Boolean(b) => {
            let mut pieces: Vec<Vec<u8>> = Vec::new();
            pieces.push(tagged(if *b { 1 } else { 0 }));
            let r = hash_all(&pieces);
            assert(Seq::new(pieces@.len(), |i: int| pieces@[i]@) =~= seq![seq![if *b {
                1u8
            } else {
                0u8
            }]]);
            r
        },
        Val::Tuple(t) => {
            let mut pieces: Vec<Vec<u8>> = Vec::new();
            let mut i: usize = 0;
            while i < t.0.len()
                invariant
                    i <= t.0.len(),
                    pieces.len() == i,
                    forall|j: int|
                        0 <= j < i ==> pieces@[j]@ == spec_u64_to_le_bytes(spec_hash(t.0@[j]@)),
                decreases t.0.len() - i,
            {
                pieces.push(u64_to_le_bytes(hash_value(&t.0[i])));
                i += 1;
            }
            let r = hash_all(&pieces);
            assert(Seq::new(pieces@.len(), |i: int| pieces@[i]@) =~= hash_pieces(vals_view(t.0@)));
            r
        },
        Val::SetValue(s) => hash_set(s),
        Val::Function(_) => 0,
        _ => match v.to_complex() {
            Some(c) => c.hash_val(),
            None => 0,
        },
    }
}

impl Val {
    /// The hash of the value, the same for values that are equal.
    pub fn hash_val(&self) -> (r: u64)
        ensures
            r == spec_hash(self@),
    {
        hash_value(self)
    }
}

/// An integer and the rational and the complex number made from it have the
/// same hash.
pub proof fn lemma_promotion_keeps_hash(i: int)
    ensures
        spec_hash(ValView::Integer(i)) == spec_hash(
            ValView::Rational(crate::number::ratio_of_int(i)),
        ),
        spec_hash(ValView::Integer(i)) == spec_hash(
            ValView::Complex(crate::number::complex_of_int(i)),
        ),
{
}

/// Two numbers that are equal have the same hash, whatever their kinds.
pub proof fn lemma_equal_numbers_hash_alike(a: ValView, b: ValView)
    requires
        promote(a) is Some,
        val_equals(a, b),
    ensures
        spec_hash(a) == spec_hash(b),
{
}

proof fn lemma_hash_sum_remove(hashes: Seq<u64>, j: int)
    requires
        0 <= j < hashes.len(),
    ensures
        hash_sum(hashes) == (hash_sum(hashes.remove(j)) + hashes[j]) % 0x1_0000_0000_0000_0000,
    decreases hashes.len(),
{
    let m = 0x1_0000_0000_0000_0000int;
    if j == hashes.len() - 1 {
        assert(hashes.remove(j) =~= hashes.drop_last());
    } else {
        let init = hashes.drop_last();
        let last = hashes.last() as int;
        lemma_hash_sum_remove(init, j);
        assert(hashes.remove(j).drop_last() =~= init.remove(j));
        assert(hashes.remove(j).last() == hashes.last());
        let rest = hash_sum(init.remove(j)) as int;
        let taken = hashes[j] as int;
        assert(init[j] == hashes[j]);
        assert(hash_sum(init) == (rest + taken) % m);
        assert(hash_sum(hashes) == (hash_sum(init) + last) % m);
        assert(hash_sum(hashes.remove(j)) == (rest + last) % m);
        assert(((rest + taken) % m + last) % m == ((rest + last) % m + taken) % m) by {
            vstd::arithmetic::div_mod::lemma_add_mod_noop(rest + taken, last, m);
            vstd::arithmetic::div_mod::lemma_add_mod_noop(rest + last, taken, m);
            vstd::arithmetic::div_mod::lemma_small_mod(last as nat, m as nat);
            vstd::arithmetic::div_mod::lemma_small_mod(taken as nat, m as nat);
        }
    }
}

/// Where a sequence holds as many values as the first `n` of a sequence of
/// distinct values and holds each of them, the hashes of both add up to the
/// same.
proof fn lemma_prefix_hashes_alike(x: Seq<ValView>, n: nat, y: Seq<ValView>)
    requires
        n <= x.len(),
        distinct(x),
        forall|i: int| #![trigger x[i]] 0 <= i < x.len() ==> proper(x[i]),
        y.len() == n,
        finite_subset(x.take(n as int), y),
    ensures
        hash_sum(hashes_of(x.take(n as int))) == hash_sum(hashes_of(y)),
    decreases x, n,
{
    let front = x.take(n as int);
    if n == 0 {
        assert(hashes_of(front) =~= hashes_of(y));
    } else {
        let a = x[n - 1];
        assert(front[n - 1] == a);
        assert(value_in(front[n - 1], y));
        let j = choose|j: int| #![trigger y[j]] 0 <= j < y.len() && val_equals(a, y[j]);
        lemma_rest_is_held(x, n, y, j);
        let shorter = x.take(n - 1);
        let others = y.remove(j);
        lemma_prefix_hashes_alike(x, (n - 1) as nat, others);
        assert(proper(a));
        lemma_hash_agrees_with_equality(a, y[j]);
        assert(front.drop_last() =~= shorter);
        assert(hashes_of(front).drop_last() =~= hashes_of(shorter));
        assert(hashes_of(front).last() == spec_hash(a));
        assert(hashes_of(y).remove(j) =~= hashes_of(others));
        assert(hashes_of(y)[j] == spec_hash(y[j]));
        lemma_hash_sum_remove(hashes_of(y), j);
    }
}

/// Two sets that are equal have the same hash.
pub proof fn lemma_equal_sets_hash_alike(a: SetView, b: SetView)
    requires
        set_equals(a, b),
        proper_set(a),
    ensures
        spec_set_hash(a) == spec_set_hash(b),
    decreases a, 0nat,
{
    match a {
        SetView::Finite(x) => {
            assert(x.take(x.len() as int) =~= x);
            lemma_prefix_hashes_alike(x, x.len(), b->Finite_0);
        },
        SetView::Infinite(_) => {},
        SetView::Union(p, q) => {
            lemma_equal_sets_hash_alike(*p, *b->Union_0);
            lemma_equal_sets_hash_alike(*q, *b->Union_1);
        },
        SetView::Intersect(p, q) => {
            lemma_equal_sets_hash_alike(*p, *b->Intersect_0);
            lemma_equal_sets_hash_alike(*q, *b->Intersect_1);
        },
        SetView::SymDiff(p, q) => {
            lemma_equal_sets_hash_alike(*p, *b->SymDiff_0);
            lemma_equal_sets_hash_alike(*q, *b->SymDiff_1);
        },
        SetView::Exclusion(p, q) => {
            lemma_equal_sets_hash_alike(*p, *b->Exclusion_0);
            lemma_equal_sets_hash_alike(*q, *b->Exclusion_1);
        },
        SetView::Complement(p) => {
            lemma_equal_sets_hash_alike(*p, *b->Complement_0);
        },
    }
}

/// Hashes agree with equality: two values that are equal have the same
/// hash.
pub proof fn lemma_hash_agrees_with_equality(a: ValView, b: ValView)
    requires
        val_equals(a, b),
        proper(a),
    ensures
        spec_hash(a) == spec_hash(b),
    decreases a, 0nat,
{
    match a {
        ValView::Tuple(x) => {
            let y = b->Tuple_0;
            assert(tuples_equal(x, y));
            assert forall|i: int| 0 <= i < x.len() implies hashes_of(x)[i] == hashes_of(y)[i] by {
                assert(proper(x[i]));
                assert(val_equals(x[i], y[i]));
                lemma_hash_agrees_with_equality(x[i], y[i]);
            }
            assert(hashes_of(x) =~= hashes_of(y));
            assert(hash_pieces(x) =~= hash_pieces(y));
        },
        ValView::SetValue(s) => {
            lemma_equal_sets_hash_alike(s, b->SetValue_0);
        },
        _ => {},
    }
}

} // verus!
