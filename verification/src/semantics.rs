//! What the language means: evaluation of expressions and statements as
//! functions on the state of an interpreter.

use crate::arithmetic::{spec_diff, spec_neg, spec_power, spec_prod, spec_quot, spec_sum};
use crate::ast::{ExprView, StmtView};
use crate::environment::{scope_lookup, scopes_insert, EnvView, SymStoreView};
use crate::error::Error;
use crate::render::{render_set, render_val};
use crate::set::{dedup, set_contains, spec_intern, InfiniteSet, SetView};
use crate::token::{TokenKindView, TokenView};
use crate::value::{FuncView, ValView};
use vstd::prelude::*;

verus! {

/// How deep calls may nest in an interpreter that was not told otherwise.
/// Each level of calls takes its share of the machine's stack; this many
/// fit, with room for the expressions in between, within the 2 MiB of stack
/// that std gives a spawned thread.
pub const MAX_CALL_DEPTH: usize = 500;

/// A value that was refused by the set that constrains a name: the name and
/// the texts of the set and of the value.
pub ghost struct MismatchView {
    pub name: Seq<char>,
    pub set: Seq<char>,
    pub value: Seq<char>,
}

/// The state of an interpreter: all scopes, the place of the scope it stands
/// in, the sets it has met, the last value that a constraint refused, and
/// how deep it lets calls nest.
pub ghost struct InterpView {
    pub scopes: Seq<EnvView>,
    pub env: nat,
    pub pool: Seq<SetView>,
    pub mismatch: Option<MismatchView>,
    pub limit: nat,
}

/// The state after the set `ts`, which constrains `name`, refused `v`.
pub open spec fn refused(st: InterpView, name: Seq<char>, ts: SetView, v: ValView) -> InterpView {
    InterpView {
        mismatch: Some(MismatchView { name, set: render_set(ts), value: render_val(v) }),
        ..st
    }
}

/// What an evaluation gives and the state it leaves.
pub ghost struct Outcome {
    pub result: Result<ValView, Error>,
    pub state: InterpView,
}

/// What the evaluation of several expressions gives and the state it leaves.
pub ghost struct ListOutcome {
    pub result: Result<Seq<ValView>, Error>,
    pub state: InterpView,
}

/// What the evaluation of the arguments of a call gives and the state it
/// leaves.
pub ghost struct ArgsOutcome {
    pub result: Result<Seq<Option<ValView>>, Error>,
    pub state: InterpView,
}

/// What a step that gives no value leaves: an error, if it failed, and the
/// state.
pub ghost struct StepOutcome {
    pub error: Option<Error>,
    pub state: InterpView,
}

/// What a statement gives: the line to show, if any, and the state it leaves.
pub ghost struct StmtOutcome {
    pub result: Result<Option<Seq<char>>, Error>,
    pub state: InterpView,
}

/// What a program gives: the lines shown up to the first failure, that
/// failure, and the state it leaves.
pub ghost struct RunOutcome {
    pub lines: Seq<Seq<char>>,
    pub error: Option<Error>,
    pub state: InterpView,
}

pub open spec fn univ() -> SetView {
    SetView::Infinite(InfiniteSet::Univ)
}

/// The first place of `name` among `names` from `start` on.
pub open spec fn index_of(names: Seq<Seq<char>>, name: Seq<char>, start: nat) -> Option<nat>
    decreases names.len() - start,
{
    if start >= names.len() {
        None
    } else if names[start as int] == name {
        Some(start)
    } else {
        index_of(names, name, start + 1)
    }
}

/// The pairs of `find` and `replace` from `start` on whose name to find is
/// not among `params`.
pub open spec fn unshadowed(
    find: Seq<Seq<char>>,
    replace: Seq<Seq<char>>,
    params: Seq<Seq<char>>,
    start: nat,
) -> (Seq<Seq<char>>, Seq<Seq<char>>)
    decreases find.len() - start,
{
    if start >= find.len() || start >= replace.len() {
        (Seq::empty(), Seq::empty())
    } else {
        let rest = unshadowed(find, replace, params, start + 1);
        if index_of(params, find[start as int], 0) is Some {
            rest
        } else {
            (seq![find[start as int]] + rest.0, seq![replace[start as int]] + rest.1)
        }
    }
}

/// The expression with every symbol named in `find` renamed to the name at
/// the same place in `replace`. Within a function literal its own parameters
/// are not renamed.
pub open spec fn spec_substitute(
    e: ExprView,
    find: Seq<Seq<char>>,
    replace: Seq<Seq<char>>,
) -> ExprView
    decreases e,
{
    match e {
        ExprView::Literal(_) => e,
        ExprView::Symbol(name) => match index_of(find, name, 0) {
            Some(i) => if i < replace.len() {
                ExprView::Symbol(replace[i as int])
            } else {
                e
            },
            None => e,
        },
        ExprView::Group(inner) => ExprView::Group(Box::new(spec_substitute(*inner, find, replace))),
        ExprView::Unary(op, inner) => ExprView::Unary(
            op,
            Box::new(spec_substitute(*inner, find, replace)),
        ),
        ExprView::Binary(left, op, right) => ExprView::Binary(
            Box::new(spec_substitute(*left, find, replace)),
            op,
            Box::new(spec_substitute(*right, find, replace)),
        ),
        ExprView::Call(callee, args) => ExprView::Call(
            Box::new(spec_substitute(*callee, find, replace)),
            Seq::new(
                args.len(),
                |i: int|
                    if 0 <= i < args.len() {
                        match args[i] {
                            Some(arg) => Some(spec_substitute(arg, find, replace)),
                            None => None,
                        }
                    } else {
                        None
                    },
            ),
        ),
        ExprView::Assign(name, value) => ExprView::Assign(
            name,
            Box::new(spec_substitute(*value, find, replace)),
        ),
        ExprView::TypedAssign(name, ty, value) => ExprView::TypedAssign(
            name,
            Box::new(spec_substitute(*ty, find, replace)),
            Box::new(spec_substitute(*value, find, replace)),
        ),
        ExprView::Func(params, body) => {
            let kept = unshadowed(find, replace, params, 0);
            ExprView::Func(params, Box::new(spec_substitute(*body, kept.0, kept.1)))
        },
        ExprView::Tuple(items) => ExprView::Tuple(spec_substitute_all(items, find, replace)),
        ExprView::Matrix(rows) => ExprView::Matrix(
            Seq::new(
                rows.len(),
                |i: int|
                    if 0 <= i < rows.len() {
                        spec_substitute_all(rows[i], find, replace)
                    } else {
                        Seq::empty()
                    },
            ),
        ),
        ExprView::SetLiteral(items) => ExprView::SetLiteral(
            spec_substitute_all(items, find, replace),
        ),
        ExprView::TypeExpr(value, ty) => ExprView::TypeExpr(
            Box::new(spec_substitute(*value, find, replace)),
            Box::new(spec_substitute(*ty, find, replace)),
        ),
        ExprView::FuncTypeExpr(func, params, result) => ExprView::FuncTypeExpr(
            Box::new(spec_substitute(*func, find, replace)),
            spec_substitute_all(params, find, replace),
            Box::new(spec_substitute(*result, find, replace)),
        ),
    }
}

pub open spec fn spec_substitute_all(
    items: Seq<ExprView>,
    find: Seq<Seq<char>>,
    replace: Seq<Seq<char>>,
) -> Seq<ExprView>
    decreases items,
{
    Seq::new(
        items.len(),
        |i: int|
            if 0 <= i < items.len() {
                spec_substitute(items[i], find, replace)
            } else {
                ExprView::Symbol(Seq::empty())
            },
    )
}

/// The expression with every symbol that holds a value, and is not among
/// `retained`, replaced by that value. Symbols among `retained` and symbols
/// under a type constraint stay. Within a function literal its own
/// parameters are retained too.
pub open spec fn spec_curry(
    scopes: Seq<EnvView>,
    env: nat,
    e: ExprView,
    retained: Seq<Seq<char>>,
) -> Result<ExprView, Error>
    decreases e, 0nat,
{
    match e {
        ExprView::Literal(_) => Ok(e),
        ExprView::Symbol(name) => if index_of(retained, name, 0) is Some {
            Ok(e)
        } else {
            match scope_lookup(scopes, env, name) {
                Some(SymStoreView::Value(v)) => Ok(ExprView::Literal(v)),
                Some(SymStoreView::Type(_)) => Ok(e),
                _ => Err(Error::UndefinedSymbol),
            }
        },
        ExprView::Group(inner) => match spec_curry(scopes, env, *inner, retained) {
            Ok(x) => Ok(ExprView::Group(Box::new(x))),
            Err(err) => Err(err),
        },
        ExprView::Unary(op, inner) => match spec_curry(scopes, env, *inner, retained) {
            Ok(x) => Ok(ExprView::Unary(op, Box::new(x))),
            Err(err) => Err(err),
        },
        ExprView::Binary(left, op, right) => match spec_curry(scopes, env, *left, retained) {
            Ok(x) => match spec_curry(scopes, env, *right, retained) {
                Ok(y) => Ok(ExprView::Binary(Box::new(x), op, Box::new(y))),
                Err(err) => Err(err),
            },
            Err(err) => Err(err),
        },
        ExprView::Tuple(items) => match spec_curry_all(scopes, env, items, 0, retained) {
            Ok(xs) => Ok(ExprView::Tuple(xs)),
            Err(err) => Err(err),
        },
        ExprView::SetLiteral(items) => match spec_curry_all(scopes, env, items, 0, retained) {
            Ok(xs) => Ok(ExprView::SetLiteral(xs)),
            Err(err) => Err(err),
        },
        ExprView::Func(params, body) => match spec_curry(scopes, env, *body, retained + params) {
            Ok(x) => Ok(ExprView::Func(params, Box::new(x))),
            Err(err) => Err(err),
        },
        ExprView::Call(callee, args) => match spec_curry(scopes, env, *callee, retained) {
            Ok(x) => match spec_curry_args(scopes, env, args, 0, retained) {
                Ok(ys) => Ok(ExprView::Call(Box::new(x), ys)),
                Err(err) => Err(err),
            },
            Err(err) => Err(err),
        },
        _ => Err(Error::NotYetImplemented),
    }
}

/// `spec_curry` on the expressions from `start` on, in order, up to the
/// first failure.
pub open spec fn spec_curry_all(
    scopes: Seq<EnvView>,
    env: nat,
    items: Seq<ExprView>,
    start: nat,
    retained: Seq<Seq<char>>,
) -> Result<Seq<ExprView>, Error>
    decreases items, items.len() - start,
{
    if start >= items.len() {
        Ok(Seq::empty())
    } else {
        match spec_curry(scopes, env, items[start as int], retained) {
            Ok(x) => match spec_curry_all(scopes, env, items, start + 1, retained) {
                Ok(xs) => Ok(seq![x] + xs),
                Err(err) => Err(err),
            },
            Err(err) => Err(err),
        }
    }
}

/// `spec_curry` on the arguments from `start` on; an argument left out stays
/// left out.
pub open spec fn spec_curry_args(
    scopes: Seq<EnvView>,
    env: nat,
    args: Seq<Option<ExprView>>,
    start: nat,
    retained: Seq<Seq<char>>,
) -> Result<Seq<Option<ExprView>>, Error>
    decreases args, args.len() - start,
{
    if start >= args.len() {
        Ok(Seq::empty())
    } else {
        let head = match args[start as int] {
            Some(arg) => match spec_curry(scopes, env, arg, retained) {
                Ok(x) => Ok(Some(x)),
                Err(err) => Err(err),
            },
            None => Ok(None),
        };
        match head {
            Ok(x) => match spec_curry_args(scopes, env, args, start + 1, retained) {
                Ok(xs) => Ok(seq![x] + xs),
                Err(err) => Err(err),
            },
            Err(err) => Err(err),
        }
    }
}

/// A unary operator on a value. On a function it gives the function whose
/// body is the operator on the old body; else only `-` has a meaning.
pub open spec fn spec_unary(op: TokenView, v: ValView) -> Result<ValView, Error> {
    match v {
        ValView::Function(f) => Ok(
            ValView::Function(
                FuncView {
                    env: f.env,
                    arg_names: f.arg_names,
                    expr: Box::new(ExprView::Unary(op, Box::new(ExprView::Group(f.expr)))),
                    codomain: f.codomain,
                },
            ),
        ),
        _ => match op.kind {
            TokenKindView::Minus => spec_neg(v),
            _ => Err(Error::NotYetImplemented),
        },
    }
}

/// A binary operator on two values. With a function on either side it gives
/// a function: of two functions of one arity, the operator on both bodies
/// over the parameters of the left one; of a function and another value, the
/// operator on the body and that value. Else `+ - * / ^` are arithmetic, and
/// no other operator has a meaning yet.
pub open spec fn spec_binary(l: ValView, op: TokenView, r: ValView) -> Result<ValView, Error> {
    match (l, r) {
        (ValView::Function(lf), ValView::Function(rf)) => if lf.arg_names.len()
            == rf.arg_names.len() {
            Ok(
                ValView::Function(
                    FuncView {
                        env: lf.env,
                        arg_names: lf.arg_names,
                        expr: Box::new(
                            ExprView::Binary(
                                Box::new(ExprView::Group(lf.expr)),
                                op,
                                Box::new(
                                    ExprView::Group(
                                        Box::new(
                                            spec_substitute(*rf.expr, rf.arg_names, lf.arg_names),
                                        ),
                                    ),
                                ),
                            ),
                        ),
                        codomain: univ(),
                    },
                ),
            )
        } else {
            Err(Error::ArityError)
        },
        (ValView::Function(lf), _) => Ok(
            ValView::Function(
                FuncView {
                    env: lf.env,
                    arg_names: lf.arg_names,
                    expr: Box::new(
                        ExprView::Binary(
                            Box::new(ExprView::Group(lf.expr)),
                            op,
                            Box::new(ExprView::Literal(r)),
                        ),
                    ),
                    codomain: univ(),
                },
            ),
        ),
        (_, ValView::Function(rf)) => Ok(
            ValView::Function(
                FuncView {
                    env: rf.env,
                    arg_names: rf.arg_names,
                    expr: Box::new(
                        ExprView::Binary(
                            Box::new(ExprView::Literal(l)),
                            op,
                            Box::new(ExprView::Group(rf.expr)),
                        ),
                    ),
                    codomain: univ(),
                },
            ),
        ),
        _ => match op.kind {
            TokenKindView::Plus => spec_sum(l, r),
            TokenKindView::Minus => spec_diff(l, r),
            TokenKindView::Star => spec_prod(l, r),
            TokenKindView::Slash => spec_quot(l, r),
            TokenKindView::Caret => spec_power(l, r),
            _ => Err(Error::NotYetImplemented),
        },
    }
}

/// A scope within `parent` that puts each of `params` under the constraint
/// of the set of everything.
pub open spec fn param_scope(parent: nat, params: Seq<Seq<char>>, upto: nat) -> EnvView
    decreases upto,
{
    if upto == 0 || upto > params.len() {
        EnvView { parent: Some(parent), symbols: Map::empty() }
    } else {
        let before = param_scope(parent, params, (upto - 1) as nat);
        EnvView {
            parent: before.parent,
            symbols: before.symbols.insert(params[upto - 1], SymStoreView::Type(univ())),
        }
    }
}

/// The names of the parameters from `start` on that `args` gives no value.
pub open spec fn unfilled(names: Seq<Seq<char>>, args: Seq<Option<ValView>>, start: nat) -> Seq<
    Seq<char>,
>
    decreases names.len() - start,
{
    if start >= names.len() {
        Seq::empty()
    } else if start < args.len() && args[start as int] is Some {
        unfilled(names, args, start + 1)
    } else {
        seq![names[start as int]] + unfilled(names, args, start + 1)
    }
}

/// Binds the arguments from `start` on in the scope at `target`. An argument
/// whose parameter is under a type constraint in the scope of the function
/// must belong to that set; one that does not is refused, and the state
/// remembers the parameter, the set and the argument.
pub open spec fn spec_bind(
    st: InterpView,
    f: FuncView,
    args: Seq<Option<ValView>>,
    start: nat,
    target: nat,
) -> StepOutcome
    decreases args.len() - start,
{
    if start >= args.len() || start >= f.arg_names.len() {
        StepOutcome { error: None, state: st }
    } else {
        match args[start as int] {
            None => spec_bind(st, f, args, start + 1, target),
            Some(v) => {
                let name = f.arg_names[start as int];
                let allowed = match scope_lookup(st.scopes, f.env, name) {
                    Some(SymStoreView::Type(ts)) => set_contains(ts, v),
                    _ => Ok(true),
                };
                match allowed {
                    Err(e) => StepOutcome { error: Some(e), state: st },
                    Ok(false) => StepOutcome {
                        error: Some(Error::TypeMismatch),
                        state: refused(
                            st,
                            name,
                            scope_lookup(st.scopes, f.env, name)->Some_0->Type_0,
                            v,
                        ),
                    },
                    Ok(true) => spec_bind(
                        InterpView {
                            scopes: scopes_insert(st.scopes, target, name, SymStoreView::Value(v)),
                            ..st
                        },
                        f,
                        args,
                        start + 1,
                        target,
                    ),
                }
            },
        }
    }
}

/// The value of an expression and the state after its evaluation. Calls nest
/// at most `depth` deep.
pub open spec fn spec_eval(st: InterpView, e: ExprView, depth: nat) -> Outcome
    decreases depth, e, 0nat,
{
    match e {
        ExprView::Literal(v) => Outcome { result: Ok(v), state: st },
        ExprView::Symbol(name) => match scope_lookup(st.scopes, st.env, name) {
            Some(SymStoreView::Value(v)) => Outcome { result: Ok(v), state: st },
            _ => Outcome { result: Err(Error::UndefinedSymbol), state: st },
        },
        ExprView::Group(inner) => spec_eval(st, *inner, depth),
        ExprView::Unary(op, inner) => {
            let o = spec_eval(st, *inner, depth);
            match o.result {
                Ok(v) => Outcome { result: spec_unary(op, v), state: o.state },
                Err(_) => o,
            }
        },
        ExprView::Binary(left, op, right) => {
            let a = spec_eval(st, *left, depth);
            match a.result {
                Ok(l) => {
                    let b = spec_eval(a.state, *right, depth);
                    match b.result {
                        Ok(r) => Outcome { result: spec_binary(l, op, r), state: b.state },
                        Err(_) => b,
                    }
                },
                Err(_) => a,
            }
        },
        ExprView::Tuple(items) => {
            let o = spec_eval_all(st, items, 0, depth);
            match o.result {
                Ok(values) => Outcome { result: Ok(ValView::Tuple(values)), state: o.state },
                Err(err) => Outcome { result: Err(err), state: o.state },
            }
        },
        ExprView::SetLiteral(items) => {
            let o = spec_eval_all(st, items, 0, depth);
            match o.result {
                Ok(values) => {
                    let interned = spec_intern(o.state.pool, SetView::Finite(dedup(values)));
                    Outcome {
                        result: Ok(ValView::SetValue(interned.0)),
                        state: InterpView { pool: interned.1, ..o.state },
                    }
                },
                Err(err) => Outcome { result: Err(err), state: o.state },
            }
        },
        ExprView::Func(params, body) => Outcome {
            result: Ok(
                ValView::Function(
                    FuncView {
                        env: st.scopes.len(),
                        arg_names: params,
                        expr: body,
                        codomain: univ(),
                    },
                ),
            ),
            state: InterpView {
                scopes: st.scopes.push(param_scope(st.env, params, params.len())),
                ..st
            },
        },
        ExprView::Call(callee, args) => {
            let c = spec_eval(st, *callee, depth);
            match c.result {
                Ok(ValView::Function(f)) => {
                    let a = spec_eval_args(c.state, args, 0, depth);
                    match a.result {
                        Ok(values) => if depth == 0 {
                            Outcome { result: Err(Error::DepthExceeded), state: a.state }
                        } else {
                            spec_call(a.state, f, values, (depth - 1) as nat)
                        },
                        Err(err) => Outcome { result: Err(err), state: a.state },
                    }
                },
                Ok(_) => Outcome { result: Err(Error::NotCallable), state: c.state },
                Err(_) => c,
            }
        },
        _ => Outcome { result: Err(Error::NotYetImplemented), state: st },
    }
}

/// The values of the expressions from `start` on, evaluated in order up to
/// the first failure.
pub open spec fn spec_eval_all(
    st: InterpView,
    items: Seq<ExprView>,
    start: nat,
    depth: nat,
) -> ListOutcome
    decreases depth, items, items.len() - start,
{
    if start >= items.len() {
        ListOutcome { result: Ok(Seq::empty()), state: st }
    } else {
        let head = spec_eval(st, items[start as int], depth);
        match head.result {
            Ok(v) => {
                let rest = spec_eval_all(head.state, items, start + 1, depth);
                match rest.result {
                    Ok(values) => ListOutcome { result: Ok(seq![v] + values), state: rest.state },
                    Err(_) => rest,
                }
            },
            Err(err) => ListOutcome { result: Err(err), state: head.state },
        }
    }
}

/// The values of the arguments from `start` on, evaluated in order up to the
/// first failure; an argument left out has none.
pub open spec fn spec_eval_args(
    st: InterpView,
    args: Seq<Option<ExprView>>,
    start: nat,
    depth: nat,
) -> ArgsOutcome
    decreases depth, args, args.len() - start,
{
    if start >= args.len() {
        ArgsOutcome { result: Ok(Seq::empty()), state: st }
    } else {
        match args[start as int] {
            Some(arg) => {
                let head = spec_eval(st, arg, depth);
                match head.result {
                    Ok(v) => {
                        let rest = spec_eval_args(head.state, args, start + 1, depth);
                        match rest.result {
                            Ok(values) => ArgsOutcome {
                                result: Ok(seq![Some(v)] + values),
                                state: rest.state,
                            },
                            Err(_) => rest,
                        }
                    },
                    Err(err) => ArgsOutcome { result: Err(err), state: head.state },
                }
            },
            None => {
                let rest = spec_eval_args(st, args, start + 1, depth);
                match rest.result {
                    Ok(values) => ArgsOutcome {
                        result: Ok(seq![None] + values),
                        state: rest.state,
                    },
                    Err(_) => rest,
                }
            },
        }
    }
}

/// A call of a function. More arguments than parameters are refused. The
/// arguments given are bound in a new scope within the scope of the
/// function. Where every parameter has its value the body is evaluated
/// there. Else the call gives a function of the parameters left, in that new
/// scope, whose body is the old body with the names that hold values
/// replaced by them.
pub open spec fn spec_call(
    st: InterpView,
    f: FuncView,
    args: Seq<Option<ValView>>,
    depth: nat,
) -> Outcome
    decreases depth, f, 0nat,
{
    if args.len() > f.arg_names.len() {
        Outcome { result: Err(Error::ArityError), state: st }
    } else {
        let target = st.scopes.len();
        let opened = InterpView {
            scopes: st.scopes.push(EnvView { parent: Some(f.env), symbols: Map::empty() }),
            ..st
        };
        let bound = spec_bind(opened, f, args, 0, target);
        match bound.error {
            Some(err) => Outcome { result: Err(err), state: bound.state },
            None => {
                let left = unfilled(f.arg_names, args, 0);
                if left.len() > 0 {
                    match spec_curry(bound.state.scopes, target, *f.expr, left) {
                        Ok(body) => Outcome {
                            result: Ok(
                                ValView::Function(
                                    FuncView {
                                        env: target,
                                        arg_names: left,
                                        expr: Box::new(body),
                                        codomain: f.codomain,
                                    },
                                ),
                            ),
                            state: bound.state,
                        },
                        Err(err) => Outcome { result: Err(err), state: bound.state },
                    }
                } else {
                    let o = spec_eval(InterpView { env: target, ..bound.state }, *f.expr, depth);
                    Outcome { result: o.result, state: InterpView { env: st.env, ..o.state } }
                }
            },
        }
    }
}


/// Whether `name` holds a value in the scope the interpreter stands in or in
/// a scope around it.
pub open spec fn assigned(st: InterpView, name: Seq<char>) -> bool {
    scope_lookup(st.scopes, st.env, name) matches Some(SymStoreView::Value(_))
}

/// The value as it is stored: a set as the pool hands it out.
pub open spec fn stored_value(st: InterpView, v: ValView) -> ValView {
    match v {
        ValView::SetValue(s) => ValView::SetValue(spec_intern(st.pool, s).0),
        _ => v,
    }
}

/// The state after `name` is bound to a value in the scope the interpreter
/// stands in; a set is interned first.
pub open spec fn spec_insert_value(st: InterpView, name: Seq<char>, v: ValView) -> InterpView {
    InterpView {
        scopes: scopes_insert(
            st.scopes,
            st.env,
            name,
            SymStoreView::Value(stored_value(st, v)),
        ),
        env: st.env,
        pool: match v {
            ValView::SetValue(s) => spec_intern(st.pool, s).1,
            _ => st.pool,
        },
        mismatch: st.mismatch,
        limit: st.limit,
    }
}

/// The state after `name` is put under the constraint of a set, which is
/// interned first.
pub open spec fn spec_insert_type(st: InterpView, name: Seq<char>, s: SetView) -> InterpView {
    InterpView {
        scopes: scopes_insert(
            st.scopes,
            st.env,
            name,
            SymStoreView::Type(spec_intern(st.pool, s).0),
        ),
        env: st.env,
        pool: spec_intern(st.pool, s).1,
        mismatch: st.mismatch,
        limit: st.limit,
    }
}

/// The sets from `start` on as the pool hands them out, one after the other,
/// and the pool after that.
pub open spec fn spec_intern_all(pool: Seq<SetView>, sets: Seq<SetView>, start: nat) -> (
    Seq<SetView>,
    Seq<SetView>,
)
    decreases sets.len() - start,
{
    if start >= sets.len() {
        (Seq::empty(), pool)
    } else {
        let head = spec_intern(pool, sets[start as int]);
        let rest = spec_intern_all(head.1, sets, start + 1);
        (seq![head.0] + rest.0, rest.1)
    }
}

/// The state after `name` is given the signature of a function; the sets are
/// interned first, those of the parameters in order and then that of the
/// results.
pub open spec fn spec_insert_signature(
    st: InterpView,
    name: Seq<char>,
    params: Seq<SetView>,
    codomain: SetView,
) -> InterpView {
    let interned = spec_intern_all(st.pool, params, 0);
    let last = spec_intern(interned.1, codomain);
    InterpView {
        scopes: scopes_insert(
            st.scopes,
            st.env,
            name,
            SymStoreView::FuncType(interned.0, last.0),
        ),
        env: st.env,
        pool: last.1,
        mismatch: st.mismatch,
        limit: st.limit,
    }
}

/// The scope `env` with the parameters from `start` on put under the
/// constraints of `types`, each interned, and the pool after that.
pub open spec fn spec_retype_scope(
    env: EnvView,
    pool: Seq<SetView>,
    names: Seq<Seq<char>>,
    types: Seq<SetView>,
    start: nat,
) -> (EnvView, Seq<SetView>)
    decreases types.len() - start,
{
    if start >= types.len() || start >= names.len() {
        (env, pool)
    } else {
        let interned = spec_intern(pool, types[start as int]);
        spec_retype_scope(
            EnvView {
                parent: env.parent,
                symbols: env.symbols.insert(names[start as int], SymStoreView::Type(interned.0)),
            },
            interned.1,
            names,
            types,
            start + 1,
        )
    }
}

/// A function moved to a copy of its scope in which its parameters are under
/// the constraints of `types`, and the state with that scope added.
pub open spec fn spec_retype(st: InterpView, f: FuncView, types: Seq<SetView>) -> (
    FuncView,
    InterpView,
) {
    let base = if f.env < st.scopes.len() {
        st.scopes[f.env as int]
    } else {
        EnvView { parent: None, symbols: Map::empty() }
    };
    let typed = spec_retype_scope(base, st.pool, f.arg_names, types, 0);
    (
        FuncView { env: st.scopes.len(), ..f },
        InterpView { scopes: st.scopes.push(typed.0), pool: typed.1, ..st },
    )
}

/// The value bound to `name` and the state with that binding.
pub open spec fn spec_store(st: InterpView, name: Seq<char>, v: ValView) -> Outcome {
    Outcome { result: Ok(stored_value(st, v)), state: spec_insert_value(st, name, v) }
}

/// `name = right`. A name that holds a value is not assigned again. A
/// function assigned to a name with a signature must have as many parameters
/// and is moved to a scope that constrains them; another value assigned to a
/// name under a type constraint must belong to that set.
pub open spec fn spec_assign(st: InterpView, name: Seq<char>, right: ExprView, depth: nat) -> Outcome {
    if assigned(st, name) {
        Outcome { result: Err(Error::ReassignmentError), state: st }
    } else {
        let o = spec_eval(st, right, depth);
        match o.result {
            Err(_) => o,
            Ok(v) => {
                let declared = scope_lookup(o.state.scopes, o.state.env, name);
                match v {
                    ValView::Function(f) => match declared {
                        Some(SymStoreView::FuncType(types, _)) => if f.arg_names.len()
                            != types.len() {
                            Outcome { result: Err(Error::ArityError), state: o.state }
                        } else {
                            let moved = spec_retype(o.state, f, types);
                            spec_store(moved.1, name, ValView::Function(moved.0))
                        },
                        _ => spec_store(o.state, name, v),
                    },
                    _ => match declared {
                        Some(SymStoreView::Type(ts)) => match set_contains(ts, v) {
                            Ok(true) => spec_store(o.state, name, v),
                            Ok(false) => Outcome {
                                result: Err(Error::TypeMismatch),
                                state: refused(o.state, name, ts, v),
                            },
                            Err(err) => Outcome { result: Err(err), state: o.state },
                        },
                        _ => spec_store(o.state, name, v),
                    },
                }
            },
        }
    }
}

/// `name : ty = right`. The type must be a set and the value must belong to
/// it.
pub open spec fn spec_typed_assign(
    st: InterpView,
    name: Seq<char>,
    ty: ExprView,
    right: ExprView,
    depth: nat,
) -> StepOutcome {
    if assigned(st, name) {
        StepOutcome { error: Some(Error::ReassignmentError), state: st }
    } else {
        let t = spec_eval(st, ty, depth);
        match t.result {
            Err(err) => StepOutcome { error: Some(err), state: t.state },
            Ok(ValView::SetValue(s)) => {
                let o = spec_eval(t.state, right, depth);
                match o.result {
                    Err(err) => StepOutcome { error: Some(err), state: o.state },
                    Ok(v) => match set_contains(s, v) {
                        Ok(true) => StepOutcome {
                            error: None,
                            state: spec_insert_value(o.state, name, v),
                        },
                        Ok(false) => StepOutcome {
                            error: Some(Error::TypeMismatch),
                            state: refused(o.state, name, s, v),
                        },
                        Err(err) => StepOutcome { error: Some(err), state: o.state },
                    },
                }
            },
            Ok(_) => StepOutcome { error: Some(Error::NotASet), state: t.state },
        }
    }
}

/// `value : ty`. For a name without a value it puts the name under the
/// constraint of the set; anything else would be a cast, which has no meaning
/// yet.
pub open spec fn spec_declare_type(
    st: InterpView,
    value: ExprView,
    ty: ExprView,
    depth: nat,
) -> StepOutcome {
    match value {
        ExprView::Symbol(name) => if assigned(st, name) {
            StepOutcome { error: Some(Error::NotYetImplemented), state: st }
        } else {
            let t = spec_eval(st, ty, depth);
            match t.result {
                Err(err) => StepOutcome { error: Some(err), state: t.state },
                Ok(ValView::SetValue(s)) => StepOutcome {
                    error: None,
                    state: spec_insert_type(t.state, name, s),
                },
                Ok(_) => StepOutcome { error: Some(Error::NotASet), state: t.state },
            }
        },
        _ => StepOutcome { error: Some(Error::NotYetImplemented), state: st },
    }
}

/// What the evaluation of several types gives and the state it leaves.
pub ghost struct SetsOutcome {
    pub result: Result<Seq<SetView>, Error>,
    pub state: InterpView,
}

/// The sets that the expressions from `start` on evaluate to, in order, up
/// to the first that fails or is no set.
pub open spec fn spec_eval_sets(
    st: InterpView,
    items: Seq<ExprView>,
    start: nat,
    depth: nat,
) -> SetsOutcome
    decreases items.len() - start,
{
    if start >= items.len() {
        SetsOutcome { result: Ok(Seq::empty()), state: st }
    } else {
        let head = spec_eval(st, items[start as int], depth);
        match head.result {
            Ok(ValView::SetValue(s)) => {
                let rest = spec_eval_sets(head.state, items, start + 1, depth);
                match rest.result {
                    Ok(sets) => SetsOutcome { result: Ok(seq![s] + sets), state: rest.state },
                    Err(_) => rest,
                }
            },
            Ok(_) => SetsOutcome { result: Err(Error::NotASet), state: head.state },
            Err(err) => SetsOutcome { result: Err(err), state: head.state },
        }
    }
}

/// `func : types -> result`. For a name without a value it records the
/// signature; anything else has no meaning yet.
pub open spec fn spec_declare_signature(
    st: InterpView,
    func: ExprView,
    types: Seq<ExprView>,
    result: ExprView,
    depth: nat,
) -> StepOutcome {
    match func {
        ExprView::Symbol(name) => if assigned(st, name) {
            StepOutcome { error: Some(Error::NotYetImplemented), state: st }
        } else {
            let params = spec_eval_sets(st, types, 0, depth);
            match params.result {
                Err(err) => StepOutcome { error: Some(err), state: params.state },
                Ok(sets) => {
                    let c = spec_eval(params.state, result, depth);
                    match c.result {
                        Err(err) => StepOutcome { error: Some(err), state: c.state },
                        Ok(ValView::SetValue(s)) => StepOutcome {
                            error: None,
                            state: spec_insert_signature(c.state, name, sets, s),
                        },
                        Ok(_) => StepOutcome { error: Some(Error::NotASet), state: c.state },
                    }
                },
            }
        },
        _ => StepOutcome { error: Some(Error::NotYetImplemented), state: st },
    }
}

pub open spec fn step_result(o: StepOutcome) -> StmtOutcome {
    StmtOutcome {
        result: match o.error {
            Some(err) => Err(err),
            None => Ok(None),
        },
        state: o.state,
    }
}

/// A statement. An assignment shows `name = value` where it is to be shown;
/// a declaration shows nothing; any other expression shows its value.
pub open spec fn spec_execute_stmt(st: InterpView, stmt: StmtView, depth: nat) -> StmtOutcome {
    match stmt {
        StmtView::ExprStmt(e, log) => match e {
            ExprView::Assign(name, right) => {
                let o = spec_assign(st, name, *right, depth);
                StmtOutcome {
                    result: match o.result {
                        Ok(v) => Ok(
                            if log {
                                Some(name + " = "@ + render_val(v))
                            } else {
                                None
                            },
                        ),
                        Err(err) => Err(err),
                    },
                    state: o.state,
                }
            },
            ExprView::TypedAssign(name, ty, right) => step_result(
                spec_typed_assign(st, name, *ty, *right, depth),
            ),
            ExprView::TypeExpr(value, ty) => step_result(spec_declare_type(st, *value, *ty, depth)),
            ExprView::FuncTypeExpr(func, types, result) => step_result(
                spec_declare_signature(st, *func, types, *result, depth),
            ),
            _ => {
                let o = spec_eval(st, e, depth);
                StmtOutcome {
                    result: match o.result {
                        Ok(v) => Ok(Some(render_val(v))),
                        Err(err) => Err(err),
                    },
                    state: o.state,
                }
            },
        },
    }
}

/// The statements from `start` on, run in order up to the first failure.
pub open spec fn spec_interpret(
    st: InterpView,
    stmts: Seq<StmtView>,
    start: nat,
    depth: nat,
) -> RunOutcome
    decreases stmts.len() - start,
{
    if start >= stmts.len() {
        RunOutcome { lines: Seq::empty(), error: None, state: st }
    } else {
        let o = spec_execute_stmt(st, stmts[start as int], depth);
        match o.result {
            Err(err) => RunOutcome { lines: Seq::empty(), error: Some(err), state: o.state },
            Ok(line) => {
                let rest = spec_interpret(o.state, stmts, start + 1, depth);
                RunOutcome {
                    lines: match line {
                        Some(text) => seq![text] + rest.lines,
                        None => rest.lines,
                    },
                    error: rest.error,
                    state: rest.state,
                }
            },
        }
    }
}


/// The state with a named set bound to its name.
pub open spec fn with_named_set(st: InterpView, k: InfiniteSet) -> InterpView {
    spec_insert_value(st, crate::set::infinite_name(k), ValView::SetValue(SetView::Infinite(k)))
}

/// The state of a new interpreter: one scope, which binds the names of the
/// named sets to them.
pub open spec fn initial_state() -> InterpView {
    initial_state_with(MAX_CALL_DEPTH as nat)
}

/// The state of a new interpreter that lets calls nest `limit` deep.
pub open spec fn initial_state_with(limit: nat) -> InterpView {
    let empty = InterpView {
        scopes: seq![EnvView { parent: None, symbols: Map::empty() }],
        env: 0,
        pool: Seq::empty(),
        mismatch: None,
        limit,
    };
    with_named_set(
        with_named_set(
            with_named_set(
                with_named_set(
                    with_named_set(
                        with_named_set(
                            with_named_set(empty, InfiniteSet::Univ),
                            InfiniteSet::Empty,
                        ),
                        InfiniteSet::Nat,
                    ),
                    InfiniteSet::Int,
                ),
                InfiniteSet::Real,
            ),
            InfiniteSet::Complex,
        ),
        InfiniteSet::Str,
    )
}

} // verus!
