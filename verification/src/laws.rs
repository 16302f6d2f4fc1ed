//! Laws of the language, proved from the definitions of its meaning.

use crate::arithmetic::{exponent_too_large, spec_power};
use crate::ast::ExprView;
use crate::environment::{scope_lookup, scopes_insert, EnvView, SymStoreView};
use crate::error::Error;
use crate::number::{complex_of_int, complex_of_ratio, ratio_of_int};
use crate::ast::StmtView;
use crate::semantics::{
    assigned, initial_state_with, refused, spec_intern_all, spec_retype_scope, with_named_set, spec_assign, spec_bind, spec_call, spec_declare_signature, spec_declare_type,
    spec_eval, spec_eval_all, spec_eval_args, spec_eval_sets, spec_execute_stmt,
    spec_insert_signature, spec_insert_type, spec_insert_value, spec_interpret, spec_retype,
    spec_store, spec_typed_assign, stored_value, unfilled, InterpView, Outcome, StepOutcome,
};
use crate::value::FuncView;
use crate::set::{
    dedup, distinct, finite_subset, held_once, infinite_name, lemma_intern_holds_each_once, lemma_dedup_distinct, lemma_dedup_keeps_given_values, infinite_contains, pool_find, pool_find_from, set_contains,
    set_equals, spec_intern, value_in, InfiniteSet, SetView,
};
use crate::value::{promote, tuples_equal, val_equals, ValView};
use vstd::prelude::*;

verus! {

/// An exponent too large to raise anything to is refused, of every integer
/// and rational base but the two whose power needs no raising: the integer
/// 1 to a negative power, which is 1, and the rational -1, whose power goes
/// by the parity of the exponent.
pub proof fn lemma_oversized_exponents_are_refused(base: ValView, e: int)
    requires
        exponent_too_large(e),
    ensures
        base is Integer && !(base->Integer_0 == 1 && e < 0) ==> spec_power(
            base,
            ValView::Integer(e),
        ) == Err::<ValView, Error>(Error::UnsupportedOperation),
        base is Rational && base->Rational_0 != ratio_of_int(-1) ==> spec_power(
            base,
            ValView::Integer(e),
        ) == Err::<ValView, Error>(Error::UnsupportedOperation),
        e < 0 ==> spec_power(ValView::Integer(1), ValView::Integer(e)) == Ok::<ValView, Error>(
            ValView::Integer(1),
        ),
        spec_power(ValView::Rational(ratio_of_int(-1)), ValView::Integer(e)) == Ok::<
            ValView,
            Error,
        >(
            ValView::Integer(
                if e % 2 == 0 {
                    1
                } else {
                    -1
                },
            ),
        ),
{
}

/// An integer equals the rational and the complex number made from it, and
/// they equal it.
pub proof fn lemma_promotion_keeps_equality(i: int)
    ensures
        val_equals(ValView::Integer(i), ValView::Rational(ratio_of_int(i))),
        val_equals(ValView::Rational(ratio_of_int(i)), ValView::Integer(i)),
        val_equals(ValView::Integer(i), ValView::Complex(complex_of_int(i))),
        val_equals(ValView::Complex(complex_of_int(i)), ValView::Integer(i)),
        val_equals(
            ValView::Rational(ratio_of_int(i)),
            ValView::Complex(complex_of_ratio(ratio_of_int(i))),
        ),
{
}

/// A name that holds a value is not assigned again: the assignment fails
/// and leaves every scope as it was, so that the name keeps its value.
pub proof fn lemma_single_assignment(st: InterpView, name: Seq<char>, right: ExprView, depth: nat)
    requires
        assigned(st, name),
    ensures
        spec_assign(st, name, right, depth) == (Outcome {
            result: Err(Error::ReassignmentError),
            state: st,
        }),
{
}

/// A name that holds a value is not assigned again with a type either.
pub proof fn lemma_single_typed_assignment(
    st: InterpView,
    name: Seq<char>,
    ty: ExprView,
    right: ExprView,
    depth: nat,
)
    requires
        assigned(st, name),
    ensures
        spec_typed_assign(st, name, ty, right, depth) == (StepOutcome {
            error: Some(Error::ReassignmentError),
            state: st,
        }),
{
}

/// A name that holds a value in a scope holds it in every scope within that
/// one which does not bind the name itself: there too it cannot be assigned.
pub proof fn lemma_assigned_in_inner_scope(st: InterpView, inner: nat, name: Seq<char>)
    requires
        assigned(st, name),
        inner < st.scopes.len(),
        st.scopes[inner as int].parent == Some(st.env),
        st.env < inner,
        !st.scopes[inner as int].symbols.contains_key(name),
    ensures
        assigned(InterpView { env: inner, ..st }, name),
{
}

/// After a value is stored under a name, the name holds that value.
pub proof fn lemma_stored_value_is_found(st: InterpView, name: Seq<char>, v: ValView)
    requires
        st.env < st.scopes.len(),
    ensures
        scope_lookup(spec_insert_value(st, name, v).scopes, st.env, name) == Some(
            SymStoreView::Value(stored_value(st, v)),
        ),
        assigned(spec_insert_value(st, name, v), name),
{
}

/// A value other than a function, assigned to a name under a type
/// constraint, is stored where it belongs to the set and refused with a type
/// mismatch where it does not; then nothing is bound, and the name, the set
/// and the value are remembered.
pub proof fn lemma_constrained_assignment(
    st: InterpView,
    name: Seq<char>,
    v: ValView,
    ts: SetView,
    depth: nat,
)
    requires
        scope_lookup(st.scopes, st.env, name) == Some(SymStoreView::Type(ts)),
        !(v is Function),
    ensures
        spec_assign(st, name, ExprView::Literal(v), depth) == (match set_contains(ts, v) {
            Ok(true) => spec_store(st, name, v),
            Ok(false) => Outcome {
                result: Err(Error::TypeMismatch),
                state: refused(st, name, ts, v),
            },
            Err(err) => Outcome { result: Err(err), state: st },
        }),
{
}

proof fn lemma_find_after_push(pool: Seq<SetView>, s: SetView, start: int)
    requires
        0 <= start <= pool.len(),
        pool_find_from(pool, s, start) is None,
    ensures
        pool_find_from(pool.push(s), s, start) == Some(pool.len() as int),
    decreases pool.len() - start,
{
    if start < pool.len() {
        assert(pool.push(s)[start] == pool[start]);
        lemma_find_after_push(pool, s, start + 1);
    } else {
        lemma_set_equality_is_reflexive(s);
        assert(pool.push(s)[start] == s);
    }
}

/// A set interned twice is handed out as the same set of the pool, and the
/// second time the pool stays as it is.
pub proof fn lemma_intern_twice(pool: Seq<SetView>, s: SetView)
    ensures
        spec_intern(spec_intern(pool, s).1, s) == spec_intern(pool, s),
        pool_find(spec_intern(pool, s).1, s) is Some,
{
    match pool_find(pool, s) {
        Some(k) => {},
        None => {
            lemma_find_after_push(pool, s, 0);
        },
    }
}

/// Two finite sets with the same elements, in whatever order, are equal.
pub proof fn lemma_set_equality_ignores_order(x: Seq<ValView>, y: Seq<ValView>)
    requires
        x.to_multiset() == y.to_multiset(),
    ensures
        set_equals(SetView::Finite(x), SetView::Finite(y)),
{
    broadcast use vstd::seq_lib::group_to_multiset_ensures;

    x.to_multiset_ensures();
    y.to_multiset_ensures();
    assert(x.len() == y.len());
    assert forall|i: int| #![trigger x[i]] 0 <= i < x.len() implies value_in(x[i], y) by {
        assert(x.contains(x[i]));
        assert(y.to_multiset().count(x[i]) > 0);
        assert(y.contains(x[i]));
        let j = choose|j: int| 0 <= j < y.len() && y[j] == x[i];
        lemma_equality_is_reflexive(x[i]);
        assert(val_equals(x[i], y[j]));
    }
    assert(finite_subset(x, y));
}

/// The set of everything contains every value, and the empty set none.
pub proof fn lemma_universe_and_empty(v: ValView)
    ensures
        infinite_contains(InfiniteSet::Univ, v),
        !infinite_contains(InfiniteSet::Empty, v),
{
}

/// Binding a name in a scope leaves every other scope as it was.
pub proof fn lemma_insert_stays_in_its_scope(
    scopes: Seq<EnvView>,
    env: nat,
    name: Seq<char>,
    entry: SymStoreView,
    other: int,
)
    requires
        0 <= other < scopes.len(),
        other != env,
    ensures
        scopes_insert(scopes, env, name, entry).len() == scopes.len(),
        scopes_insert(scopes, env, name, entry)[other] == scopes[other],
{
}

/// A name that a scope does not bind itself is looked up in the scope
/// around it.
pub proof fn lemma_lookup_falls_through(scopes: Seq<EnvView>, env: nat, name: Seq<char>)
    requires
        env < scopes.len(),
        !scopes[env as int].symbols.contains_key(name),
        scopes[env as int].parent matches Some(p) && p < env,
    ensures
        scope_lookup(scopes, env, name) == scope_lookup(
            scopes,
            scopes[env as int].parent->Some_0,
            name,
        ),
{
}

/// A name that a scope binds itself is found there, whatever the scopes
/// around it hold.
pub proof fn lemma_lookup_finds_the_innermost(scopes: Seq<EnvView>, env: nat, name: Seq<char>)
    requires
        env < scopes.len(),
        scopes[env as int].symbols.contains_key(name),
    ensures
        scope_lookup(scopes, env, name) == Some(scopes[env as int].symbols[name]),
{
}

/// Whether `after` stands in the same scope as `before`, lets calls nest as
/// deep, holds every scope and every interned set of `before` as it was, at
/// its place, and holds each set once where `before` does.
pub open spec fn keeps_scopes(before: InterpView, after: InterpView) -> bool {
    &&& after.env == before.env
    &&& after.limit == before.limit
    &&& after.scopes.len() >= before.scopes.len()
    &&& forall|j: int| 0 <= j < before.scopes.len() ==> after.scopes[j] == before.scopes[j]
    &&& after.pool.len() >= before.pool.len()
    &&& forall|j: int| 0 <= j < before.pool.len() ==> after.pool[j] == before.pool[j]
    &&& held_once(before.pool) ==> held_once(after.pool)
}

/// Interning a set leaves every set of the pool at its place.
pub proof fn lemma_intern_extends_pool(pool: Seq<SetView>, s: SetView)
    ensures
        spec_intern(pool, s).1.len() >= pool.len(),
        forall|j: int| 0 <= j < pool.len() ==> spec_intern(pool, s).1[j] == pool[j],
{
}

/// Binding the arguments of a call in a scope of its own leaves the scopes
/// before that one as they were.
pub proof fn lemma_bind_keeps_scopes(
    st: InterpView,
    f: FuncView,
    args: Seq<Option<ValView>>,
    start: nat,
    target: nat,
    base: nat,
)
    requires
        base <= target,
        base <= st.scopes.len(),
    ensures
        spec_bind(st, f, args, start, target).state.env == st.env,
        spec_bind(st, f, args, start, target).state.limit == st.limit,
        spec_bind(st, f, args, start, target).state.pool == st.pool,
        spec_bind(st, f, args, start, target).state.scopes.len() == st.scopes.len(),
        forall|j: int|
            0 <= j < base ==> spec_bind(st, f, args, start, target).state.scopes[j]
                == st.scopes[j],
    decreases args.len() - start,
{
    if start >= args.len() || start >= f.arg_names.len() {
    } else {
        match args[start as int] {
            None => {
                lemma_bind_keeps_scopes(st, f, args, start + 1, target, base);
            },
            Some(v) => {
                let name = f.arg_names[start as int];
                let next = InterpView {
                    scopes: scopes_insert(st.scopes, target, name, SymStoreView::Value(v)),
                    ..st
                };
                assert(next.scopes.len() == st.scopes.len());
                assert forall|j: int| 0 <= j < base implies next.scopes[j] == st.scopes[j] by {}
                lemma_bind_keeps_scopes(next, f, args, start + 1, target, base);
                let done = spec_bind(next, f, args, start + 1, target);
                assert forall|j: int| 0 <= j < base implies #[trigger] done.state.scopes[j]
                    == st.scopes[j] by {
                    assert(done.state.scopes[j] == next.scopes[j]);
                }
            },
        }
    }
}

/// The evaluation of an expression leaves the interpreter in the scope it
/// stood in and leaves every scope and every interned set there was as it
/// was: it only adds scopes and sets.
pub proof fn lemma_eval_keeps_scopes(st: InterpView, e: ExprView, depth: nat)
    ensures
        keeps_scopes(st, spec_eval(st, e, depth).state),
    decreases depth, e, 0nat,
{
    match e {
        ExprView::Group(inner) => {
            lemma_eval_keeps_scopes(st, *inner, depth);
        },
        ExprView::Unary(op, inner) => {
            lemma_eval_keeps_scopes(st, *inner, depth);
        },
        ExprView::Binary(left, op, right) => {
            lemma_eval_keeps_scopes(st, *left, depth);
            let a = spec_eval(st, *left, depth);
            if a.result is Ok {
                lemma_eval_keeps_scopes(a.state, *right, depth);
            }
        },
        ExprView::Tuple(items) => {
            lemma_eval_all_keeps_scopes(st, items, 0, depth);
        },
        ExprView::SetLiteral(items) => {
            lemma_eval_all_keeps_scopes(st, items, 0, depth);
            let o = spec_eval_all(st, items, 0, depth);
            if o.result is Ok && held_once(o.state.pool) {
                lemma_intern_holds_each_once(
                    o.state.pool,
                    SetView::Finite(dedup(o.result->Ok_0)),
                );
            }
        },
        ExprView::Call(callee, args) => {
            lemma_eval_keeps_scopes(st, *callee, depth);
            let c = spec_eval(st, *callee, depth);
            match c.result {
                Ok(ValView::Function(f)) => {
                    lemma_eval_args_keep_scopes(c.state, args, 0, depth);
                    let a = spec_eval_args(c.state, args, 0, depth);
                    if a.result is Ok && depth > 0 {
                        lemma_call_keeps_scopes(a.state, f, a.result->Ok_0, (depth - 1) as nat);
                    }
                },
                _ => {},
            }
        },
        _ => {},
    }
}

/// The evaluation of several expressions keeps the scopes as that of one
/// does.
pub proof fn lemma_eval_all_keeps_scopes(
    st: InterpView,
    items: Seq<ExprView>,
    start: nat,
    depth: nat,
)
    ensures
        keeps_scopes(st, spec_eval_all(st, items, start, depth).state),
    decreases depth, items, items.len() - start,
{
    if start < items.len() {
        lemma_eval_keeps_scopes(st, items[start as int], depth);
        let head = spec_eval(st, items[start as int], depth);
        if head.result is Ok {
            lemma_eval_all_keeps_scopes(head.state, items, start + 1, depth);
        }
    }
}

/// The evaluation of the arguments of a call keeps the scopes as that of one
/// expression does.
pub proof fn lemma_eval_args_keep_scopes(
    st: InterpView,
    args: Seq<Option<ExprView>>,
    start: nat,
    depth: nat,
)
    ensures
        keeps_scopes(st, spec_eval_args(st, args, start, depth).state),
    decreases depth, args, args.len() - start,
{
    if start < args.len() {
        match args[start as int] {
            Some(arg) => {
                lemma_eval_keeps_scopes(st, arg, depth);
                let head = spec_eval(st, arg, depth);
                if head.result is Ok {
                    lemma_eval_args_keep_scopes(head.state, args, start + 1, depth);
                }
            },
            None => {
                lemma_eval_args_keep_scopes(st, args, start + 1, depth);
            },
        }
    }
}

/// A call leaves the interpreter in the scope it stood in and leaves every
/// scope there was as it was: the arguments are bound in a scope of their
/// own.
pub proof fn lemma_call_keeps_scopes(
    st: InterpView,
    f: FuncView,
    args: Seq<Option<ValView>>,
    depth: nat,
)
    ensures
        keeps_scopes(st, spec_call(st, f, args, depth).state),
    decreases depth, f, 0nat,
{
    if args.len() <= f.arg_names.len() {
        let target = st.scopes.len();
        let opened = InterpView {
            scopes: st.scopes.push(EnvView { parent: Some(f.env), symbols: Map::empty() }),
            ..st
        };
        lemma_bind_keeps_scopes(opened, f, args, 0, target, target);
        let bound = spec_bind(opened, f, args, 0, target);
        assert forall|j: int| 0 <= j < st.scopes.len() implies #[trigger] bound.state.scopes[j]
            == st.scopes[j] by {
            assert(opened.scopes[j] == st.scopes[j]);
        }
        assert(keeps_scopes(st, bound.state));
        if bound.error is None && unfilled(f.arg_names, args, 0).len() == 0 {
            let inner = InterpView { env: target, ..bound.state };
            lemma_eval_keeps_scopes(inner, *f.expr, depth);
            let o = spec_eval(inner, *f.expr, depth);
            assert forall|j: int| 0 <= j < st.scopes.len() implies #[trigger] o.state.scopes[j]
                == st.scopes[j] by {
                assert(o.state.scopes[j] == inner.scopes[j]);
            }
        }
    }
}

/// A partial call gives a function of just the parameters left without a
/// value, in their order, which lives in the scope of the call.
pub proof fn lemma_partial_call_gives_function_of_the_rest(
    st: InterpView,
    f: FuncView,
    args: Seq<Option<ValView>>,
    depth: nat,
)
    requires
        spec_call(st, f, args, depth).result is Ok,
        unfilled(f.arg_names, args, 0).len() > 0,
    ensures
        spec_call(st, f, args, depth).result->Ok_0 is Function,
        spec_call(st, f, args, depth).result->Ok_0->Function_0.arg_names == unfilled(
            f.arg_names,
            args,
            0,
        ),
        spec_call(st, f, args, depth).result->Ok_0->Function_0.env == st.scopes.len(),
        spec_call(st, f, args, depth).result->Ok_0->Function_0.codomain == f.codomain,
{
}

/// What a name is bound to, as seen from a scope, depends on that scope and
/// the scopes before it alone.
pub proof fn lemma_lookup_agrees(
    before: Seq<EnvView>,
    after: Seq<EnvView>,
    env: nat,
    name: Seq<char>,
)
    requires
        env < before.len(),
        env < after.len(),
        forall|j: int| 0 <= j <= env ==> after[j] == before[j],
    ensures
        scope_lookup(after, env, name) == scope_lookup(before, env, name),
    decreases env,
{
    assert(after[env as int] == before[env as int]);
    if !before[env as int].symbols.contains_key(name) {
        match before[env as int].parent {
            Some(p) => {
                if p < env {
                    lemma_lookup_agrees(before, after, p, name);
                }
            },
            None => {},
        }
    }
}

/// Binding a name in the scope from which names are looked up leaves what
/// every other name is bound to.
pub proof fn lemma_insert_leaves_other_names(
    scopes: Seq<EnvView>,
    env: nat,
    name: Seq<char>,
    entry: SymStoreView,
    other: Seq<char>,
)
    requires
        env < scopes.len(),
        other != name,
    ensures
        scope_lookup(scopes_insert(scopes, env, name, entry), env, other) == scope_lookup(
            scopes,
            env,
            other,
        ),
{
    let after = scopes_insert(scopes, env, name, entry);
    if !scopes[env as int].symbols.contains_key(other) {
        match scopes[env as int].parent {
            Some(p) => {
                if p < env {
                    lemma_lookup_agrees(scopes, after, p, other);
                }
            },
            None => {},
        }
    }
}

/// The evaluation of an expression leaves what every name is bound to, as
/// seen from the scope the interpreter stands in.
pub proof fn lemma_eval_keeps_bindings(st: InterpView, e: ExprView, depth: nat, name: Seq<char>)
    requires
        st.env < st.scopes.len(),
    ensures
        scope_lookup(spec_eval(st, e, depth).state.scopes, st.env, name) == scope_lookup(
            st.scopes,
            st.env,
            name,
        ),
        spec_eval(st, e, depth).state.env == st.env,
        spec_eval(st, e, depth).state.scopes.len() >= st.scopes.len(),
{
    lemma_eval_keeps_scopes(st, e, depth);
    lemma_lookup_agrees(st.scopes, spec_eval(st, e, depth).state.scopes, st.env, name);
}

/// The evaluation of several types keeps the scopes as that of one
/// expression does.
pub proof fn lemma_eval_sets_keep_scopes(
    st: InterpView,
    items: Seq<ExprView>,
    start: nat,
    depth: nat,
)
    ensures
        keeps_scopes(st, spec_eval_sets(st, items, start, depth).state),
    decreases items.len() - start,
{
    if start < items.len() {
        lemma_eval_keeps_scopes(st, items[start as int], depth);
        let head = spec_eval(st, items[start as int], depth);
        if head.result is Ok && head.result->Ok_0 is SetValue {
            lemma_eval_sets_keep_scopes(head.state, items, start + 1, depth);
        }
    }
}

/// A name that holds a value keeps that value through every statement: a
/// statement binds only names that hold none.
pub proof fn lemma_values_are_kept(st: InterpView, stmt: StmtView, depth: nat, name: Seq<char>)
    requires
        st.env < st.scopes.len(),
        assigned(st, name),
    ensures
        spec_execute_stmt(st, stmt, depth).state.env == st.env,
        spec_execute_stmt(st, stmt, depth).state.scopes.len() >= st.scopes.len(),
        scope_lookup(spec_execute_stmt(st, stmt, depth).state.scopes, st.env, name)
            == scope_lookup(st.scopes, st.env, name),
{
    match stmt {
        StmtView::ExprStmt(e, log) => match e {
            ExprView::Assign(target, right) => {
                if !assigned(st, target) {
                    lemma_eval_keeps_bindings(st, *right, depth, name);
                    lemma_eval_keeps_bindings(st, *right, depth, target);
                    let o = spec_eval(st, *right, depth);
                    match o.result {
                        Ok(v) => {
                            let declared = scope_lookup(o.state.scopes, o.state.env, target);
                            let moved = match (v, declared) {
                                (ValView::Function(f), Some(SymStoreView::FuncType(types, _))) => {
                                    spec_retype(o.state, f, types).1
                                },
                                _ => o.state,
                            };
                            assert(moved.scopes.len() >= o.state.scopes.len());
                            assert forall|j: int| 0 <= j < o.state.scopes.len() implies moved.scopes[j]
                                == o.state.scopes[j] by {}
                            lemma_lookup_agrees(o.state.scopes, moved.scopes, st.env, name);
                            lemma_insert_leaves_other_names(
                                moved.scopes,
                                st.env,
                                target,
                                SymStoreView::Value(
                                    stored_value(
                                        moved,
                                        match (v, declared) {
                                            (
                                                ValView::Function(f),
                                                Some(SymStoreView::FuncType(types, _)),
                                            ) => ValView::Function(
                                                spec_retype(o.state, f, types).0,
                                            ),
                                            _ => v,
                                        },
                                    ),
                                ),
                                name,
                            );
                        },
                        Err(_) => {},
                    }
                }
            },
            ExprView::TypedAssign(target, ty, right) => {
                if !assigned(st, target) {
                    lemma_eval_keeps_bindings(st, *ty, depth, name);
                    lemma_eval_keeps_bindings(st, *ty, depth, target);
                    let t = spec_eval(st, *ty, depth);
                    if t.result is Ok && t.result->Ok_0 is SetValue {
                        lemma_eval_keeps_bindings(t.state, *right, depth, name);
                        lemma_eval_keeps_bindings(t.state, *right, depth, target);
                        let o = spec_eval(t.state, *right, depth);
                        if o.result is Ok {
                            let v = o.result->Ok_0;
                            lemma_insert_leaves_other_names(
                                o.state.scopes,
                                st.env,
                                target,
                                SymStoreView::Value(stored_value(o.state, v)),
                                name,
                            );
                        }
                    }
                }
            },
            ExprView::TypeExpr(value, ty) => {
                if let ExprView::Symbol(target) = *value {
                    if !assigned(st, target) {
                        lemma_eval_keeps_bindings(st, *ty, depth, name);
                        lemma_eval_keeps_bindings(st, *ty, depth, target);
                        let t = spec_eval(st, *ty, depth);
                        if t.result is Ok && t.result->Ok_0 is SetValue {
                            let s = t.result->Ok_0->SetValue_0;
                            lemma_insert_leaves_other_names(
                                t.state.scopes,
                                st.env,
                                target,
                                SymStoreView::Type(spec_intern(t.state.pool, s).0),
                                name,
                            );
                        }
                    }
                }
            },
            ExprView::FuncTypeExpr(func, types, result) => {
                if let ExprView::Symbol(target) = *func {
                    if !assigned(st, target) {
                        lemma_eval_sets_keep_scopes(st, types, 0, depth);
                        let params = spec_eval_sets(st, types, 0, depth);
                        lemma_lookup_agrees(st.scopes, params.state.scopes, st.env, name);
                        lemma_lookup_agrees(st.scopes, params.state.scopes, st.env, target);
                        if params.result is Ok {
                            let sets = params.result->Ok_0;
                            lemma_eval_keeps_bindings(params.state, *result, depth, name);
                            lemma_eval_keeps_bindings(params.state, *result, depth, target);
                            let c = spec_eval(params.state, *result, depth);
                            if c.result is Ok && c.result->Ok_0 is SetValue {
                                let s = c.result->Ok_0->SetValue_0;
                                let after = spec_insert_signature(c.state, target, sets, s);
                                let entry = after.scopes[st.env as int].symbols[target];
                                assert(after.scopes == scopes_insert(
                                    c.state.scopes,
                                    st.env,
                                    target,
                                    entry,
                                ));
                                lemma_insert_leaves_other_names(
                                    c.state.scopes,
                                    st.env,
                                    target,
                                    entry,
                                    name,
                                );
                            }
                        }
                    }
                }
            },
            _ => {
                lemma_eval_keeps_bindings(st, e, depth, name);
            },
        },
    }
}

/// Interning several sets in a pool that holds each set once gives such a
/// pool.
pub proof fn lemma_intern_all_holds_each_once(pool: Seq<SetView>, sets: Seq<SetView>, start: nat)
    requires
        held_once(pool),
    ensures
        held_once(spec_intern_all(pool, sets, start).1),
    decreases sets.len() - start,
{
    if start < sets.len() {
        lemma_intern_holds_each_once(pool, sets[start as int]);
        lemma_intern_all_holds_each_once(spec_intern(pool, sets[start as int]).1, sets, start + 1);
    }
}

proof fn lemma_retype_holds_each_once(
    env: EnvView,
    pool: Seq<SetView>,
    names: Seq<Seq<char>>,
    types: Seq<SetView>,
    start: nat,
)
    requires
        held_once(pool),
    ensures
        held_once(spec_retype_scope(env, pool, names, types, start).1),
    decreases types.len() - start,
{
    if start < types.len() && start < names.len() {
        let interned = spec_intern(pool, types[start as int]);
        lemma_intern_holds_each_once(pool, types[start as int]);
        lemma_retype_holds_each_once(
            EnvView {
                parent: env.parent,
                symbols: env.symbols.insert(names[start as int], SymStoreView::Type(interned.0)),
            },
            interned.1,
            names,
            types,
            start + 1,
        );
    }
}

proof fn lemma_store_holds_each_once(st: InterpView, name: Seq<char>, v: ValView)
    requires
        held_once(st.pool),
    ensures
        held_once(spec_insert_value(st, name, v).pool),
{
    if let ValView::SetValue(s) = v {
        lemma_intern_holds_each_once(st.pool, s);
    }
}

/// A named set as a value.
pub open spec fn named(k: InfiniteSet) -> ValView {
    ValView::SetValue(SetView::Infinite(k))
}

/// The pool of a new interpreter holds each set once.
pub proof fn lemma_new_pool_holds_each_once(limit: nat)
    ensures
        held_once(initial_state_with(limit).pool),
{
    let empty = InterpView {
        scopes: seq![EnvView { parent: None, symbols: Map::empty() }],
        env: 0,
        pool: Seq::empty(),
        mismatch: None,
        limit,
    };
    let a = with_named_set(empty, InfiniteSet::Univ);
    lemma_store_holds_each_once(empty, infinite_name(InfiniteSet::Univ), named(InfiniteSet::Univ));
    let b = with_named_set(a, InfiniteSet::Empty);
    lemma_store_holds_each_once(a, infinite_name(InfiniteSet::Empty), named(InfiniteSet::Empty));
    let c = with_named_set(b, InfiniteSet::Nat);
    lemma_store_holds_each_once(b, infinite_name(InfiniteSet::Nat), named(InfiniteSet::Nat));
    let d = with_named_set(c, InfiniteSet::Int);
    lemma_store_holds_each_once(c, infinite_name(InfiniteSet::Int), named(InfiniteSet::Int));
    let e = with_named_set(d, InfiniteSet::Real);
    lemma_store_holds_each_once(d, infinite_name(InfiniteSet::Real), named(InfiniteSet::Real));
    let f = with_named_set(e, InfiniteSet::Complex);
    lemma_store_holds_each_once(e, infinite_name(InfiniteSet::Complex), named(InfiniteSet::Complex));
    lemma_store_holds_each_once(f, infinite_name(InfiniteSet::Str), named(InfiniteSet::Str));
}

/// Every statement leaves a pool that holds each set once as such a pool.
pub proof fn lemma_statement_holds_each_set_once(st: InterpView, stmt: StmtView, depth: nat)
    requires
        held_once(st.pool),
    ensures
        held_once(spec_execute_stmt(st, stmt, depth).state.pool),
{
    match stmt {
        StmtView::ExprStmt(e, log) => match e {
            ExprView::Assign(target, right) => {
                lemma_eval_keeps_scopes(st, *right, depth);
                let o = spec_eval(st, *right, depth);
                if o.result is Ok {
                    let v = o.result->Ok_0;
                    lemma_store_holds_each_once(o.state, target, v);
                    let declared = scope_lookup(o.state.scopes, o.state.env, target);
                    if v is Function && declared is Some && declared->Some_0 is FuncType {
                        let f = v->Function_0;
                        let types = declared->Some_0->FuncType_0;
                        let base = if f.env < o.state.scopes.len() {
                            o.state.scopes[f.env as int]
                        } else {
                            EnvView { parent: None, symbols: Map::empty() }
                        };
                        lemma_retype_holds_each_once(base, o.state.pool, f.arg_names, types, 0);
                        let moved = spec_retype(o.state, f, types);
                        lemma_store_holds_each_once(moved.1, target, ValView::Function(moved.0));
                    }
                }
            },
            ExprView::TypedAssign(target, ty, right) => {
                lemma_eval_keeps_scopes(st, *ty, depth);
                let t = spec_eval(st, *ty, depth);
                lemma_eval_keeps_scopes(t.state, *right, depth);
                let o = spec_eval(t.state, *right, depth);
                if o.result is Ok {
                    lemma_store_holds_each_once(o.state, target, o.result->Ok_0);
                }
            },
            ExprView::TypeExpr(value, ty) => {
                lemma_eval_keeps_scopes(st, *ty, depth);
                let t = spec_eval(st, *ty, depth);
                if t.result is Ok && t.result->Ok_0 is SetValue {
                    lemma_intern_holds_each_once(t.state.pool, t.result->Ok_0->SetValue_0);
                }
            },
            ExprView::FuncTypeExpr(func, types, result) => {
                lemma_eval_sets_keep_scopes(st, types, 0, depth);
                let params = spec_eval_sets(st, types, 0, depth);
                lemma_eval_keeps_scopes(params.state, *result, depth);
                let c = spec_eval(params.state, *result, depth);
                if params.result is Ok && c.result is Ok && c.result->Ok_0 is SetValue {
                    lemma_intern_all_holds_each_once(c.state.pool, params.result->Ok_0, 0);
                    lemma_intern_holds_each_once(
                        spec_intern_all(c.state.pool, params.result->Ok_0, 0).1,
                        c.result->Ok_0->SetValue_0,
                    );
                }
            },
            _ => {
                lemma_eval_keeps_scopes(st, e, depth);
            },
        },
    }
}

/// Every program leaves a pool that holds each set once as such a pool.
pub proof fn lemma_program_holds_each_set_once(
    st: InterpView,
    stmts: Seq<StmtView>,
    start: nat,
    depth: nat,
)
    requires
        held_once(st.pool),
    ensures
        held_once(spec_interpret(st, stmts, start, depth).state.pool),
    decreases stmts.len() - start,
{
    if start < stmts.len() {
        lemma_statement_holds_each_set_once(st, stmts[start as int], depth);
        let o = spec_execute_stmt(st, stmts[start as int], depth);
        if o.result is Ok {
            lemma_program_holds_each_set_once(o.state, stmts, start + 1, depth);
        }
    }
}

/// No statement changes how deep the interpreter lets calls nest.
pub proof fn lemma_statement_keeps_limit(st: InterpView, stmt: StmtView, depth: nat)
    ensures
        spec_execute_stmt(st, stmt, depth).state.limit == st.limit,
{
    match stmt {
        StmtView::ExprStmt(e, log) => match e {
            ExprView::Assign(target, right) => {
                lemma_eval_keeps_scopes(st, *right, depth);
            },
            ExprView::TypedAssign(target, ty, right) => {
                lemma_eval_keeps_scopes(st, *ty, depth);
                lemma_eval_keeps_scopes(spec_eval(st, *ty, depth).state, *right, depth);
            },
            ExprView::TypeExpr(value, ty) => {
                lemma_eval_keeps_scopes(st, *ty, depth);
            },
            ExprView::FuncTypeExpr(func, types, result) => {
                lemma_eval_sets_keep_scopes(st, types, 0, depth);
                lemma_eval_keeps_scopes(
                    spec_eval_sets(st, types, 0, depth).state,
                    *result,
                    depth,
                );
            },
            _ => {
                lemma_eval_keeps_scopes(st, e, depth);
            },
        },
    }
}

/// No program changes how deep the interpreter lets calls nest.
pub proof fn lemma_program_keeps_limit(st: InterpView, stmts: Seq<StmtView>, start: nat, depth: nat)
    ensures
        spec_interpret(st, stmts, start, depth).state.limit == st.limit,
    decreases stmts.len() - start,
{
    if start < stmts.len() {
        lemma_statement_keeps_limit(st, stmts[start as int], depth);
        let o = spec_execute_stmt(st, stmts[start as int], depth);
        if o.result is Ok {
            lemma_program_keeps_limit(o.state, stmts, start + 1, depth);
        }
    }
}

/// A name that holds a value keeps that value through every program.
pub proof fn lemma_values_are_kept_throughout(
    st: InterpView,
    stmts: Seq<StmtView>,
    start: nat,
    depth: nat,
    name: Seq<char>,
)
    requires
        st.env < st.scopes.len(),
        assigned(st, name),
    ensures
        scope_lookup(spec_interpret(st, stmts, start, depth).state.scopes, st.env, name)
            == scope_lookup(st.scopes, st.env, name),
        spec_interpret(st, stmts, start, depth).state.env == st.env,
    decreases stmts.len() - start,
{
    if start < stmts.len() {
        lemma_values_are_kept(st, stmts[start as int], depth, name);
        let o = spec_execute_stmt(st, stmts[start as int], depth);
        if o.result is Ok {
            lemma_values_are_kept_throughout(o.state, stmts, start + 1, depth, name);
        }
    }
}

/// A value equals itself.
pub proof fn lemma_equality_is_reflexive(a: ValView)
    ensures
        val_equals(a, a),
    decreases a, 0nat,
{
    match a {
        ValView::Tuple(x) => {
            assert forall|i: int| #![trigger x[i]] 0 <= i < x.len() implies val_equals(
                x[i],
                x[i],
            ) by {
                lemma_equality_is_reflexive(x[i]);
            }
        },
        ValView::SetValue(s) => {
            lemma_set_equality_is_reflexive(s);
        },
        _ => {},
    }
}

/// A set equals itself.
pub proof fn lemma_set_equality_is_reflexive(a: SetView)
    ensures
        set_equals(a, a),
    decreases a, 0nat,
{
    match a {
        SetView::Finite(x) => {
            assert forall|i: int| #![trigger x[i]] 0 <= i < x.len() implies value_in(x[i], x) by {
                lemma_equality_is_reflexive(x[i]);
                let j = i;
                assert(0 <= j < x.len() && val_equals(x[i], x[j]));
            }
            assert(finite_subset(x, x));
        },
        SetView::Infinite(_) => {},
        SetView::Union(p, q) => {
            lemma_set_equality_is_reflexive(*p);
            lemma_set_equality_is_reflexive(*q);
        },
        SetView::Intersect(p, q) => {
            lemma_set_equality_is_reflexive(*p);
            lemma_set_equality_is_reflexive(*q);
        },
        SetView::SymDiff(p, q) => {
            lemma_set_equality_is_reflexive(*p);
            lemma_set_equality_is_reflexive(*q);
        },
        SetView::Exclusion(p, q) => {
            lemma_set_equality_is_reflexive(*p);
            lemma_set_equality_is_reflexive(*q);
        },
        SetView::Complement(p) => {
            lemma_set_equality_is_reflexive(*p);
        },
    }
}

/// Whether every finite set within the set, all the way down, holds distinct
/// values. It holds of the view of every `CanonSet`:
/// `CanonSet::confirm_proper` makes it known.
pub open spec fn proper_set(s: SetView) -> bool
    decreases s,
{
    match s {
        SetView::Finite(x) => distinct(x) && forall|i: int|
            #![trigger x[i]]
            0 <= i < x.len() ==> proper(x[i]),
        SetView::Infinite(_) => true,
        SetView::Union(a, b) => proper_set(*a) && proper_set(*b),
        SetView::Intersect(a, b) => proper_set(*a) && proper_set(*b),
        SetView::SymDiff(a, b) => proper_set(*a) && proper_set(*b),
        SetView::Exclusion(a, b) => proper_set(*a) && proper_set(*b),
        SetView::Complement(a) => proper_set(*a),
    }
}

/// Whether every finite set within the value, all the way down, holds
/// distinct values. A `FiniteSet` never holds a value twice, so this holds
/// of the view of every `Val`: `Val::confirm_proper` makes it known.
pub open spec fn proper(v: ValView) -> bool
    decreases v,
{
    match v {
        ValView::SetValue(s) => proper_set(s),
        ValView::Tuple(items) => forall|i: int|
            #![trigger items[i]]
            0 <= i < items.len() ==> proper(items[i]),
        _ => true,
    }
}

/// The finite set made of values whose own sets hold distinct values holds
/// distinct values all the way down.
pub proof fn lemma_new_set_is_proper(given: Seq<ValView>)
    requires
        forall|i: int| #![trigger given[i]] 0 <= i < given.len() ==> proper(given[i]),
    ensures
        proper_set(SetView::Finite(dedup(given))),
{
    lemma_dedup_distinct(given);
    lemma_dedup_keeps_given_values(given);
    let kept = dedup(given);
    assert forall|k: int| #![trigger kept[k]] 0 <= k < kept.len() implies proper(kept[k]) by {
        assert(given.contains(kept[k]));
        let m = choose|m: int| 0 <= m < given.len() && given[m] == kept[k];
        assert(proper(given[m]));
    }
}

/// Equality of values goes both ways.
pub proof fn lemma_equality_is_symmetric(a: ValView, b: ValView)
    requires
        val_equals(a, b),
        proper(a),
    ensures
        val_equals(b, a),
    decreases a, 0nat,
{
    match a {
        ValView::Tuple(x) => {
            let y = b->Tuple_0;
            assert(tuples_equal(x, y));
            assert forall|i: int| #![trigger y[i]] 0 <= i < y.len() implies val_equals(
                y[i],
                x[i],
            ) by {
                assert(proper(x[i]));
                assert(val_equals(x[i], y[i]));
                lemma_equality_is_symmetric(x[i], y[i]);
            }
            assert(tuples_equal(y, x));
        },
        ValView::SetValue(s) => {
            lemma_set_equality_is_symmetric(s, b->SetValue_0);
        },
        _ => {},
    }
}

/// Equality of values carries over: what equals a value equals what that
/// value equals.
pub proof fn lemma_equality_is_transitive(a: ValView, b: ValView, c: ValView)
    requires
        val_equals(a, b),
        val_equals(b, c),
        proper(a),
    ensures
        val_equals(a, c),
    decreases a, 0nat,
{
    match a {
        ValView::Tuple(x) => {
            let y = b->Tuple_0;
            let z = c->Tuple_0;
            assert(tuples_equal(x, y));
            assert(tuples_equal(y, z));
            assert forall|i: int| #![trigger x[i]] 0 <= i < x.len() implies val_equals(
                x[i],
                z[i],
            ) by {
                assert(proper(x[i]));
                assert(val_equals(x[i], y[i]));
                assert(val_equals(y[i], z[i]));
                lemma_equality_is_transitive(x[i], y[i], z[i]);
            }
            assert(tuples_equal(x, z));
        },
        ValView::SetValue(s) => {
            lemma_set_equality_is_transitive(s, b->SetValue_0, c->SetValue_0);
        },
        _ => {},
    }
}

/// Of a sequence of distinct values, the first `n` are the values of `y`
/// where `y` holds as many and holds each of them; and then what is left of
/// `y` without the value equal to the last of them holds the others.
pub(crate) proof fn lemma_rest_is_held(x: Seq<ValView>, n: nat, y: Seq<ValView>, j: int)
    requires
        0 < n <= x.len(),
        distinct(x),
        forall|i: int| #![trigger x[i]] 0 <= i < x.len() ==> proper(x[i]),
        y.len() == n,
        finite_subset(x.take(n as int), y),
        0 <= j < y.len(),
        val_equals(x[n - 1], y[j]),
    ensures
        finite_subset(x.take(n - 1), y.remove(j)),
        val_equals(y[j], x[n - 1]),
    decreases x, 0nat,
{
    let a = x[n - 1];
    let shorter = x.take(n - 1);
    let others = y.remove(j);
    assert(proper(a));
    lemma_equality_is_symmetric(a, y[j]);
    assert forall|i: int| #![trigger shorter[i]] 0 <= i < shorter.len() implies value_in(
        shorter[i],
        others,
    ) by {
        assert(shorter[i] == x[i]);
        assert(x.take(n as int)[i] == x[i]);
        assert(value_in(x.take(n as int)[i], y));
        let k = choose|k: int| #![trigger y[k]] 0 <= k < y.len() && val_equals(x[i], y[k]);
        if k == j {
            assert(proper(x[i]));
            lemma_equality_is_transitive(x[i], y[j], a);
            assert(!val_equals(x[i], x[n - 1]));
        }
        let moved = if k < j {
            k
        } else {
            k - 1
        };
        assert(others[moved] == y[k]);
        assert(0 <= moved < others.len() && val_equals(shorter[i], others[moved]));
    }
}

/// Where a sequence holds as many values as the first `n` of a sequence of
/// distinct values and holds each of them, each of its values is among them.
proof fn lemma_prefix_is_held_back(x: Seq<ValView>, n: nat, y: Seq<ValView>)
    requires
        n <= x.len(),
        distinct(x),
        forall|i: int| #![trigger x[i]] 0 <= i < x.len() ==> proper(x[i]),
        y.len() == n,
        finite_subset(x.take(n as int), y),
    ensures
        finite_subset(y, x.take(n as int)),
    decreases x, n,
{
    if n > 0 {
        let front = x.take(n as int);
        let a = x[n - 1];
        assert(front[n - 1] == a);
        assert(value_in(front[n - 1], y));
        let j = choose|j: int| #![trigger y[j]] 0 <= j < y.len() && val_equals(a, y[j]);
        lemma_rest_is_held(x, n, y, j);
        let shorter = x.take(n - 1);
        let others = y.remove(j);
        lemma_prefix_is_held_back(x, (n - 1) as nat, others);
        assert forall|k: int| #![trigger y[k]] 0 <= k < y.len() implies value_in(y[k], front) by {
            if k == j {
                assert(0 <= n - 1 < front.len() && val_equals(y[k], front[n - 1]));
            } else {
                let moved = if k < j {
                    k
                } else {
                    k - 1
                };
                assert(others[moved] == y[k]);
                assert(value_in(others[moved], shorter));
                let i = choose|i: int|
                    #![trigger shorter[i]]
                    0 <= i < shorter.len() && val_equals(others[moved], shorter[i]);
                assert(front[i] == shorter[i]);
                assert(0 <= i < front.len() && val_equals(y[k], front[i]));
            }
        }
    }
}

/// Equality of sets goes both ways.
pub proof fn lemma_set_equality_is_symmetric(a: SetView, b: SetView)
    requires
        set_equals(a, b),
        proper_set(a),
    ensures
        set_equals(b, a),
    decreases a, 0nat,
{
    match a {
        SetView::Finite(x) => {
            let y = b->Finite_0;
            assert(x.take(x.len() as int) =~= x);
            lemma_prefix_is_held_back(x, x.len(), y);
        },
        SetView::Infinite(_) => {},
        SetView::Union(p, q) => {
            lemma_set_equality_is_symmetric(*p, *b->Union_0);
            lemma_set_equality_is_symmetric(*q, *b->Union_1);
        },
        SetView::Intersect(p, q) => {
            lemma_set_equality_is_symmetric(*p, *b->Intersect_0);
            lemma_set_equality_is_symmetric(*q, *b->Intersect_1);
        },
        SetView::SymDiff(p, q) => {
            lemma_set_equality_is_symmetric(*p, *b->SymDiff_0);
            lemma_set_equality_is_symmetric(*q, *b->SymDiff_1);
        },
        SetView::Exclusion(p, q) => {
            lemma_set_equality_is_symmetric(*p, *b->Exclusion_0);
            lemma_set_equality_is_symmetric(*q, *b->Exclusion_1);
        },
        SetView::Complement(p) => {
            lemma_set_equality_is_symmetric(*p, *b->Complement_0);
        },
    }
}

/// Equality of sets carries over.
pub proof fn lemma_set_equality_is_transitive(a: SetView, b: SetView, c: SetView)
    requires
        set_equals(a, b),
        set_equals(b, c),
        proper_set(a),
    ensures
        set_equals(a, c),
    decreases a, 0nat,
{
    match a {
        SetView::Finite(x) => {
            let y = b->Finite_0;
            let z = c->Finite_0;
            assert(b == SetView::Finite(y));
            assert(finite_subset(x, y));
            assert(finite_subset(y, z));
            assert forall|i: int| #![trigger x[i]] 0 <= i < x.len() implies value_in(x[i], z) by {
                assert(value_in(x[i], y));
                let k = choose|k: int| #![trigger y[k]] 0 <= k < y.len() && val_equals(x[i], y[k]);
                assert(value_in(y[k], z));
                let m = choose|m: int| #![trigger z[m]] 0 <= m < z.len() && val_equals(y[k], z[m]);
                assert(proper(x[i]));
                lemma_equality_is_transitive(x[i], y[k], z[m]);
            }
            assert(finite_subset(x, z));
        },
        SetView::Infinite(_) => {},
        SetView::Union(p, q) => {
            lemma_set_equality_is_transitive(*p, *b->Union_0, *c->Union_0);
            lemma_set_equality_is_transitive(*q, *b->Union_1, *c->Union_1);
        },
        SetView::Intersect(p, q) => {
            lemma_set_equality_is_transitive(*p, *b->Intersect_0, *c->Intersect_0);
            lemma_set_equality_is_transitive(*q, *b->Intersect_1, *c->Intersect_1);
        },
        SetView::SymDiff(p, q) => {
            lemma_set_equality_is_transitive(*p, *b->SymDiff_0, *c->SymDiff_0);
            lemma_set_equality_is_transitive(*q, *b->SymDiff_1, *c->SymDiff_1);
        },
        SetView::Exclusion(p, q) => {
            lemma_set_equality_is_transitive(*p, *b->Exclusion_0, *c->Exclusion_0);
            lemma_set_equality_is_transitive(*q, *b->Exclusion_1, *c->Exclusion_1);
        },
        SetView::Complement(p) => {
            lemma_set_equality_is_transitive(*p, *b->Complement_0, *c->Complement_0);
        },
    }
}

} // verus!
