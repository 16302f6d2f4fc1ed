//! The interpreter: it runs statements against its scopes.

use crate::arithmetic::val_result_view;
use crate::ast::{
    binary_of, clone_expr, clone_exprs, exprs_view, group_of, literal_of, opt_expr_view,
    opt_exprs_view, rows_view, stmts_view, unary_of, Expr, ExprView, Stmt,
};
use crate::environment::{
    opt_sym_view, scope_lookup, scopes_insert, sets_view, Env, EnvView, Scopes, SymStore,
    SymStoreView,
};
use crate::error::Error;
use crate::semantics::{
    assigned, index_of, refused, MismatchView, initial_state, initial_state_with, param_scope, spec_assign, spec_binary, spec_bind,
    spec_call, spec_curry, spec_curry_all, spec_curry_args, spec_declare_signature,
    spec_declare_type, spec_eval, spec_eval_all, spec_eval_args, spec_eval_sets,
    spec_execute_stmt, spec_insert_signature, spec_insert_type, spec_insert_value,
    spec_intern_all, spec_interpret, spec_retype, spec_retype_scope, spec_substitute,
    spec_substitute_all, spec_typed_assign, spec_unary, stored_value, unfilled, univ, unshadowed,
    with_named_set, ArgsOutcome, InterpView, ListOutcome, Outcome, RunOutcome, SetsOutcome,
    StepOutcome, StmtOutcome, MAX_CALL_DEPTH,
};
use crate::set::{CanonSet, FiniteSet, InfiniteSet, SetLike, SetPool, SetView};
use crate::token::{Token, TokenKind};
use crate::value::{
    clone_names, names_view, opt_vals_view, share, vals_view, Func, FuncView, Tuple, Val, ValView,
};
use std::rc::Rc;
use vstd::prelude::*;

verus! {

/// A value that was refused by the set that constrains a name.
#[derive(Debug)]
pub struct Mismatch {
    /// The name under the constraint.
    pub name: String,
    /// The text of the set.
    pub set: String,
    /// The text of the value.
    pub value: String,
}

impl View for Mismatch {
    type V = MismatchView;

    open spec fn view(&self) -> MismatchView {
        MismatchView { name: self.name@, set: self.set@, value: self.value@ }
    }
}

/// What is said of a refused value.
pub open spec fn mismatch_text(m: MismatchView) -> Seq<char> {
    "'"@ + m.name + "' belongs to '"@ + m.set + "' which doesn't contain '"@ + m.value + "'"@
}

impl Mismatch {
    /// Names the name, the set and the value.
    pub fn message(&self) -> (r: String)
        ensures
            r@ == mismatch_text(self@),
    {
        let mut out = String::from_str("'");
        out.append(self.name.as_str());
        out.append("' belongs to '");
        out.append(self.set.as_str());
        out.append("' which doesn't contain '");
        out.append(self.value.as_str());
        out.append("'");
        out
    }
}

pub open spec fn opt_mismatch_view(m: Option<Mismatch>) -> Option<MismatchView> {
    match m {
        Some(x) => Some(x@),
        None => None,
    }
}

/// An interpreter: all scopes, the scope it stands in, the sets it has met,
/// and the last value that a constraint refused.
#[derive(Debug)]
pub struct Interpreter {
    pub(crate) scopes: Scopes,
    pub(crate) env: usize,
    pub(crate) set_pool: SetPool,
    pub(crate) mismatch: Option<Mismatch>,
    pub(crate) depth_limit: usize,
}

impl View for Interpreter {
    type V = InterpView;

    closed spec fn view(&self) -> InterpView {
        InterpView {
            scopes: self.scopes@,
            env: self.env as nat,
            pool: self.set_pool@,
            mismatch: opt_mismatch_view(self.mismatch),
            limit: self.depth_limit as nat,
        }
    }
}

/// The set of everything.
pub(crate) fn universe() -> (r: Rc<CanonSet>)
    ensures
        r@ == univ(),
{
    Rc::new(CanonSet::Infinite(InfiniteSet::Univ))
}

/// The first place of `name` among `names`.
pub(crate) fn position(names: &Vec<String>, name: &String) -> (r: Option<usize>)
    ensures
        match r {
            Some(i) => index_of(names_view(names@), name@, 0) == Some(i as nat) && i < names.len(),
            None => index_of(names_view(names@), name@, 0) is None,
        },
{
    let mut i: usize = 0;
    while i < names.len()
        invariant
            i <= names.len(),
            index_of(names_view(names@), name@, 0) == index_of(names_view(names@), name@, i as nat),
        decreases names.len() - i,
    {
        if names[i] == *name {
            return Some(i);
        }
        i += 1;
    }
    None
}

fn unshadowed_from(
    find: &Vec<String>,
    replace: &Vec<String>,
    params: &Vec<String>,
    start: usize,
) -> (r: (Vec<String>, Vec<String>))
    ensures
        (names_view(r.0@), names_view(r.1@)) == unshadowed(
            names_view(find@),
            names_view(replace@),
            names_view(params@),
            start as nat,
        ),
    decreases find.len() - start,
{
    if start >= find.len() || start >= replace.len() {
        let r: (Vec<String>, Vec<String>) = (Vec::new(), Vec::new());
        assert(names_view(r.0@) =~= Seq::empty());
        assert(names_view(r.1@) =~= Seq::empty());
        r
    } else {
        let rest = unshadowed_from(find, replace, params, start + 1);
        if position(params, &find[start]).is_some() {
            rest
        } else {
            let (mut found, mut replaced) = rest;
            let ghost f0 = names_view(found@);
            let ghost r0 = names_view(replaced@);
            found.insert(0, find[start].clone());
            replaced.insert(0, replace[start].clone());
            assert(names_view(found@) =~= seq![find@[start as int]@] + f0);
            assert(names_view(replaced@) =~= seq![replace@[start as int]@] + r0);
            (found, replaced)
        }
    }
}

#[verifier::loop_isolation(false)]
fn substitute_all(items: &Vec<Expr>, find: &Vec<String>, replace: &Vec<String>) -> (r: Vec<Expr>)
    ensures
        exprs_view(r@) == spec_substitute_all(
            exprs_view(items@),
            names_view(find@),
            names_view(replace@),
        ),
    decreases items, 1nat,
{
    let mut out: Vec<Expr> = Vec::new();
    let mut i: usize = 0;
    while i < items.len()
        invariant
            i <= items.len(),
            out.len() == i,
            forall|j: int|
                0 <= j < i ==> out@[j]@ == spec_substitute(
                    items@[j]@,
                    names_view(find@),
                    names_view(replace@),
                ),
        decreases items.len() - i,
    {
        out.push(substitute(&items[i], find, replace));
        i += 1;
    }
    assert(exprs_view(out@) =~= spec_substitute_all(
        exprs_view(items@),
        names_view(find@),
        names_view(replace@),
    ));
    out
}

/// The expression with the symbols named in `find` renamed to those at the
/// same places in `replace`.
#[verifier::loop_isolation(false)]
fn substitute(e: &Expr, find: &Vec<String>, replace: &Vec<String>) -> (r: Expr)
    ensures
        r@ == spec_substitute(e@, names_view(find@), names_view(replace@)),
    decreases e, 0nat,
{
    match e {
        Expr::Literal(_) => clone_expr(e),
        Expr::Symbol(name) => match position(find, name) {
            Some(i) => if i < replace.len() {
                Expr::Symbol(replace[i].clone())
            } else {
                clone_expr(e)
            },
            None => clone_expr(e),
        },
        Expr::Group(inner) => Expr::Group(Box::new(substitute(inner, find, replace))),
        Expr::Unary(op, inner) => Expr::Unary(op.clone(), Box::new(substitute(inner, find, replace))),
        Expr::Binary(left, op, right) => Expr::Binary(
            Box::new(substitute(left, find, replace)),
            op.clone(),
            Box::new(substitute(right, find, replace)),
        ),
        Expr::Call(callee, args) => {
            let mut out: Vec<Option<Expr>> = Vec::new();
            let mut i: usize = 0;
            while i < args.len()
                invariant
                    i <= args.len(),
                    out.len() == i,
                    forall|j: int|
                        0 <= j < i ==> opt_expr_view(out@[j]) == (match opt_exprs_view(args@)[j] {
                            Some(arg) => Some(
                                spec_substitute(arg, names_view(find@), names_view(replace@)),
                            ),
                            None => None,
                        }),
                decreases args.len() - i,
            {
                match &args[i] {
                    Some(arg) => out.push(Some(substitute(arg, find, replace))),
                    None => out.push(None),
                }
                i += 1;
            }
            let new_callee = substitute(callee, find, replace);
            assert(opt_exprs_view(out@) =~= spec_substitute(
                e@,
                names_view(find@),
                names_view(replace@),
            )->Call_1);
            Expr::Call(Box::new(new_callee), out)
        },
        Expr::Assign(name, value) => Expr::Assign(
            name.clone(),
            Box::new(substitute(value, find, replace)),
        ),
        Expr::TypedAssign(name, ty, value) => Expr::TypedAssign(
            name.clone(),
            Box::new(substitute(ty, find, replace)),
            Box::new(substitute(value, find, replace)),
        ),
        Expr::Func(params, body) => {
            let kept = unshadowed_from(find, replace, params, 0);
            Expr::Func(clone_names(params), Box::new(substitute(body, &kept.0, &kept.1)))
        },
        Expr::Tuple(items) => Expr::Tuple(substitute_all(items, find, replace)),
        Expr::Matrix(rows) => {
            let mut out: Vec<Vec<Expr>> = Vec::new();
            let mut i: usize = 0;
            while i < rows.len()
                invariant
                    i <= rows.len(),
                    out.len() == i,
                    forall|j: int|
                        0 <= j < i ==> exprs_view(out@[j]@) == spec_substitute_all(
                            rows_view(rows@)[j],
                            names_view(find@),
                            names_view(replace@),
                        ),
                decreases rows.len() - i,
            {
                out.push(substitute_all(&rows[i], find, replace));
                i += 1;
            }
            let ghost want = spec_substitute(e@, names_view(find@), names_view(replace@));
            assert(e@ == ExprView::Matrix(rows_view(rows@)));
            assert(want is Matrix);
            assert(want->Matrix_0.len() == rows.len());
            assert forall|j: int| 0 <= j < rows.len() implies rows_view(out@)[j]
                == want->Matrix_0[j] by {
                assert(rows_view(out@)[j] == exprs_view(out@[j]@));
            }
            assert(rows_view(out@) =~= want->Matrix_0);
            Expr::Matrix(out)
        },
        Expr::SetLiteral(items) => Expr::SetLiteral(substitute_all(items, find, replace)),
        Expr::TypeExpr(value, ty) => Expr::TypeExpr(
            Box::new(substitute(value, find, replace)),
            Box::new(substitute(ty, find, replace)),
        ),
        Expr::FuncTypeExpr(func, params, result) => Expr::FuncTypeExpr(
            Box::new(substitute(func, find, replace)),
            substitute_all(params, find, replace),
            Box::new(substitute(result, find, replace)),
        ),
    }
}

/// The outcome of a rewriting as mathematics sees it.
pub open spec fn expr_result_view(r: Result<Expr, Error>) -> Result<ExprView, Error> {
    match r {
        Ok(e) => Ok(e@),
        Err(err) => Err(err),
    }
}

pub open spec fn exprs_result_view(r: Result<Vec<Expr>, Error>) -> Result<Seq<ExprView>, Error> {
    match r {
        Ok(es) => Ok(exprs_view(es@)),
        Err(err) => Err(err),
    }
}

pub open spec fn args_result_view(r: Result<Vec<Option<Expr>>, Error>) -> Result<
    Seq<Option<ExprView>>,
    Error,
> {
    match r {
        Ok(es) => Ok(opt_exprs_view(es@)),
        Err(err) => Err(err),
    }
}

fn append_names(a: &Vec<String>, b: &Vec<String>) -> (r: Vec<String>)
    ensures
        names_view(r@) == names_view(a@) + names_view(b@),
{
    let mut out = clone_names(a);
    let mut i: usize = 0;
    while i < b.len()
        invariant
            i <= b.len(),
            out@ == a@ + b@.take(i as int),
        decreases b.len() - i,
    {
        out.push(b[i].clone());
        assert(out@ =~= a@ + b@.take(i as int + 1));
        i += 1;
    }
    assert(b@.take(b.len() as int) =~= b@);
    assert(names_view(out@) =~= names_view(a@) + names_view(b@));
    out
}

fn curry_all(
    scopes: &Scopes,
    env: usize,
    items: &Vec<Expr>,
    start: usize,
    retained: &Vec<String>,
) -> (r: Result<Vec<Expr>, Error>)
    ensures
        exprs_result_view(r) == spec_curry_all(
            scopes@,
            env as nat,
            exprs_view(items@),
            start as nat,
            names_view(retained@),
        ),
    decreases items, items.len() - start,
{
    proof {
        broadcast use vstd::std_specs::vec::axiom_vec_index_decreases;
    }
    if start >= items.len() {
        let out: Vec<Expr> = Vec::new();
        assert(exprs_view(out@) =~= Seq::empty());
        Ok(out)
    } else {
        match curry(scopes, env, &items[start], retained) {
            Ok(x) => match curry_all(scopes, env, items, start + 1, retained) {
                Ok(mut xs) => {
                    let ghost rest = exprs_view(xs@);
                    let ghost head = x@;
                    xs.insert(0, x);
                    assert(exprs_view(xs@) =~= seq![head] + rest);
                    Ok(xs)
                },
                Err(err) => Err(err),
            },
            Err(err) => Err(err),
        }
    }
}

fn curry_args(
    scopes: &Scopes,
    env: usize,
    args: &Vec<Option<Expr>>,
    start: usize,
    retained: &Vec<String>,
) -> (r: Result<Vec<Option<Expr>>, Error>)
    ensures
        args_result_view(r) == spec_curry_args(
            scopes@,
            env as nat,
            opt_exprs_view(args@),
            start as nat,
            names_view(retained@),
        ),
    decreases args, args.len() - start,
{
    proof {
        broadcast use vstd::std_specs::vec::axiom_vec_index_decreases;
    }
    if start >= args.len() {
        let out: Vec<Option<Expr>> = Vec::new();
        assert(opt_exprs_view(out@) =~= Seq::empty());
        Ok(out)
    } else {
        let head = match &args[start] {
            Some(arg) => match curry(scopes, env, arg, retained) {
                Ok(x) => Ok(Some(x)),
                Err(err) => Err(err),
            },
            None => Ok(None),
        };
        match head {
            Ok(x) => match curry_args(scopes, env, args, start + 1, retained) {
                Ok(mut xs) => {
                    let ghost rest = opt_exprs_view(xs@);
                    let ghost first = opt_expr_view(x);
                    xs.insert(0, x);
                    assert(opt_exprs_view(xs@) =~= seq![first] + rest);
                    Ok(xs)
                },
                Err(err) => Err(err),
            },
            Err(err) => Err(err),
        }
    }
}

/// The expression with the symbols that hold values, but for those
/// `retained`, replaced by their values as seen from the scope at `env`.
fn curry(scopes: &Scopes, env: usize, e: &Expr, retained: &Vec<String>) -> (r: Result<Expr, Error>)
    ensures
        expr_result_view(r) == spec_curry(scopes@, env as nat, e@, names_view(retained@)),
    decreases e, 0nat,
{
    match e {
        Expr::Literal(_) => Ok(clone_expr(e)),
        Expr::Symbol(name) => {
            if position(retained, name).is_some() {
                Ok(clone_expr(e))
            } else {
                match scopes.get(env, name.as_str()) {
                    Some(SymStore::Value(v)) => Ok(Expr::Literal(v)),
                    Some(SymStore::Type(_)) => Ok(clone_expr(e)),
                    _ => Err(Error::UndefinedSymbol),
                }
            }
        },
        Expr::Group(inner) => match curry(scopes, env, inner, retained) {
            Ok(x) => Ok(Expr::Group(Box::new(x))),
            Err(err) => Err(err),
        },
        Expr::Unary(op, inner) => match curry(scopes, env, inner, retained) {
            Ok(x) => Ok(Expr::Unary(op.clone(), Box::new(x))),
            Err(err) => Err(err),
        },
        Expr::Binary(left, op, right) => match curry(scopes, env, left, retained) {
            Ok(x) => match curry(scopes, env, right, retained) {
                Ok(y) => Ok(Expr::Binary(Box::new(x), op.clone(), Box::new(y))),
                Err(err) => Err(err),
            },
            Err(err) => Err(err),
        },
        Expr::Tuple(items) => match curry_all(scopes, env, items, 0, retained) {
            Ok(xs) => Ok(Expr::Tuple(xs)),
            Err(err) => Err(err),
        },
        Expr::SetLiteral(items) => match curry_all(scopes, env, items, 0, retained) {
            Ok(xs) => Ok(Expr::SetLiteral(xs)),
            Err(err) => Err(err),
        },
        Expr::Func(params, body) => {
            let inner = append_names(retained, params);
            match curry(scopes, env, body, &inner) {
                Ok(x) => Ok(Expr::Func(clone_names(params), Box::new(x))),
                Err(err) => Err(err),
            }
        },
        Expr::Call(callee, args) => match curry(scopes, env, callee, retained) {
            Ok(x) => match curry_args(scopes, env, args, 0, retained) {
                Ok(ys) => Ok(Expr::Call(Box::new(x), ys)),
                Err(err) => Err(err),
            },
            Err(err) => Err(err),
        },
        _ => Err(Error::NotYetImplemented),
    }
}


/// A result and the state it came with.
pub open spec fn outcome_of(r: Result<Val, Error>, st: InterpView) -> Outcome {
    Outcome { result: val_result_view(r), state: st }
}

pub open spec fn list_outcome_of(r: Result<Vec<Val>, Error>, st: InterpView) -> ListOutcome {
    ListOutcome {
        result: match r {
            Ok(values) => Ok(vals_view(values@)),
            Err(err) => Err(err),
        },
        state: st,
    }
}

pub open spec fn args_outcome_of(r: Result<Vec<Option<Val>>, Error>, st: InterpView) -> ArgsOutcome {
    ArgsOutcome {
        result: match r {
            Ok(values) => Ok(opt_vals_view(values@)),
            Err(err) => Err(err),
        },
        state: st,
    }
}

/// The names of the parameters from `start` on that get no value.
fn unfilled_names(names: &Vec<String>, args: &Vec<Option<Val>>, start: usize) -> (r: Vec<String>)
    ensures
        names_view(r@) == unfilled(names_view(names@), opt_vals_view(args@), start as nat),
    decreases names.len() - start,
{
    if start >= names.len() {
        let out: Vec<String> = Vec::new();
        assert(names_view(out@) =~= Seq::empty());
        out
    } else {
        let mut rest = unfilled_names(names, args, start + 1);
        if start < args.len() && args[start].is_some() {
            rest
        } else {
            let ghost before = names_view(rest@);
            rest.insert(0, names[start].clone());
            assert(names_view(rest@) =~= seq![names@[start as int]@] + before);
            rest
        }
    }
}

fn function_of(env: usize, names: Vec<String>, body: Expr, codomain: Rc<CanonSet>) -> (r: Val)
    ensures
        r@ == ValView::Function(
            FuncView {
                env: env as nat,
                arg_names: names_view(names@),
                expr: Box::new(body@),
                codomain: codomain@,
            },
        ),
{
    Val::Function(Func { env, arg_names: names, expr: Rc::new(body), codomain })
}

/// A unary operator on a value.
pub(crate) fn apply_unary(op: &Token, v: Val) -> (r: Result<Val, Error>)
    ensures
        val_result_view(r) == spec_unary(op@, v@),
{
    match v {
        Val::Function(f) => {
            let body = unary_of(op.clone(), group_of(clone_expr(&f.expr)));
            Ok(function_of(f.env, clone_names(&f.arg_names), body, share(&f.codomain)))
        },
        other => match op.kind() {
            TokenKind::Minus => Interpreter::execute_neg(&other),
            _ => Err(Error::NotYetImplemented),
        },
    }
}

fn arithmetic(l: &Val, op: &Token, r: &Val) -> (out: Result<Val, Error>)
    requires
        !(l@ is Function),
        !(r@ is Function),
    ensures
        val_result_view(out) == spec_binary(l@, op@, r@),
{
    match op.kind() {
        TokenKind::Plus => Interpreter::execute_sum(l, r),
        TokenKind::Minus => Interpreter::execute_diff(l, r),
        TokenKind::Star => Interpreter::execute_prod(l, r),
        TokenKind::Slash => Interpreter::execute_quot(l, r),
        TokenKind::Caret => Interpreter::execute_power(l, r),
        _ => Err(Error::NotYetImplemented),
    }
}

/// A binary operator on two values.
pub(crate) fn apply_binary(l: Val, op: &Token, r: Val) -> (out: Result<Val, Error>)
    ensures
        val_result_view(out) == spec_binary(l@, op@, r@),
{
    match (l, r) {
        (Val::Function(lf), Val::Function(rf)) => {
            if lf.arg_names.len() == rf.arg_names.len() {
                let renamed = substitute(&rf.expr, &rf.arg_names, &lf.arg_names);
                let body = binary_of(
                    group_of(clone_expr(&lf.expr)),
                    op.clone(),
                    group_of(renamed),
                );
                Ok(function_of(lf.env, clone_names(&lf.arg_names), body, universe()))
            } else {
                Err(Error::ArityError)
            }
        },
        (Val::Function(lf), right) => {
            let body = binary_of(group_of(clone_expr(&lf.expr)), op.clone(), literal_of(right));
            Ok(function_of(lf.env, clone_names(&lf.arg_names), body, universe()))
        },
        (left, Val::Function(rf)) => {
            let body = binary_of(literal_of(left), op.clone(), group_of(clone_expr(&rf.expr)));
            Ok(function_of(rf.env, clone_names(&rf.arg_names), body, universe()))
        },
        (left, right) => arithmetic(&left, op, &right),
    }
}

/// A scope within `parent` that puts each parameter under the constraint of
/// the set of everything.
fn new_param_scope(parent: usize, params: &Vec<String>) -> (r: Env)
    ensures
        r@ == param_scope(parent as nat, names_view(params@), params.len() as nat),
{
    let mut env = Env::new(Some(parent));
    let mut i: usize = 0;
    while i < params.len()
        invariant
            i <= params.len(),
            env@ == param_scope(parent as nat, names_view(params@), i as nat),
        decreases params.len() - i,
    {
        env.insert_sym_type(params[i].clone(), universe());
        i += 1;
    }
    env
}

impl Interpreter {
    /// Binds the arguments from `start` on in the scope at `target`.
    fn bind(&mut self, f: &Func, args: &Vec<Option<Val>>, start: usize, target: usize) -> (r:
        Option<Error>)
        ensures
            (StepOutcome { error: r, state: final(self)@ }) == spec_bind(
                old(self)@,
                f@,
                opt_vals_view(args@),
                start as nat,
                target as nat,
            ),
            final(self)@.env == old(self)@.env,
            final(self)@.pool == old(self)@.pool,
    {
        let mut i = start;
        while i < args.len() && i < f.arg_names.len()
            invariant
                self.env == old(self).env,
                self@.pool == old(self)@.pool,
                spec_bind(old(self)@, f@, opt_vals_view(args@), start as nat, target as nat)
                    == spec_bind(self@, f@, opt_vals_view(args@), i as nat, target as nat),
            decreases args.len() - i,
        {
            match &args[i] {
                None => {},
                Some(v) => {
                    let declared = self.scopes.get(f.env, f.arg_names[i].as_str());
                    let allowed = match &declared {
                        Some(SymStore::Type(ts)) => ts.contains(v),
                        _ => Ok(true),
                    };
                    match allowed {
                        Err(e) => {
                            return Some(e);
                        },
                        Ok(false) => {
                            if let Some(SymStore::Type(ts)) = &declared {
                                self.refuse(f.arg_names[i].as_str(), ts, v);
                            }
                            return Some(Error::TypeMismatch);
                        },
                        Ok(true) => {
                            self.scopes.insert(
                                target,
                                f.arg_names[i].clone(),
                                SymStore::Value(v.clone()),
                            );
                        },
                    }
                },
            }
            i += 1;
        }
        None
    }

    /// The values of the expressions from `start` on.
    fn eval_all(&mut self, items: &Vec<Expr>, start: usize, depth: usize) -> (r: Result<
        Vec<Val>,
        Error,
    >)
        ensures
            list_outcome_of(r, final(self)@) == spec_eval_all(
                old(self)@,
                exprs_view(items@),
                start as nat,
                depth as nat,
            ),
        decreases depth, items, items.len() - start,
    {
        proof {
            broadcast use vstd::std_specs::vec::axiom_vec_index_decreases;
        }
        if start >= items.len() {
            let out: Vec<Val> = Vec::new();
            assert(vals_view(out@) =~= Seq::empty());
            Ok(out)
        } else {
            match self.eval(&items[start], depth) {
                Ok(v) => match self.eval_all(items, start + 1, depth) {
                    Ok(mut values) => {
                        let ghost rest = vals_view(values@);
                        let ghost head = v@;
                        values.insert(0, v);
                        assert(vals_view(values@) =~= seq![head] + rest);
                        Ok(values)
                    },
                    Err(err) => Err(err),
                },
                Err(err) => Err(err),
            }
        }
    }

    /// The values of the arguments from `start` on.
    fn eval_args(&mut self, args: &Vec<Option<Expr>>, start: usize, depth: usize) -> (r: Result<
        Vec<Option<Val>>,
        Error,
    >)
        ensures
            args_outcome_of(r, final(self)@) == spec_eval_args(
                old(self)@,
                opt_exprs_view(args@),
                start as nat,
                depth as nat,
            ),
        decreases depth, args, args.len() - start,
    {
        proof {
            broadcast use vstd::std_specs::vec::axiom_vec_index_decreases;
        }
        if start >= args.len() {
            let out: Vec<Option<Val>> = Vec::new();
            assert(opt_vals_view(out@) =~= Seq::empty());
            Ok(out)
        } else {
            match &args[start] {
                Some(arg) => match self.eval(arg, depth) {
                    Ok(v) => match self.eval_args(args, start + 1, depth) {
                        Ok(mut values) => {
                            let ghost rest = opt_vals_view(values@);
                            let ghost head = v@;
                            values.insert(0, Some(v));
                            assert(opt_vals_view(values@) =~= seq![Some(head)] + rest);
                            Ok(values)
                        },
                        Err(err) => Err(err),
                    },
                    Err(err) => Err(err),
                },
                None => match self.eval_args(args, start + 1, depth) {
                    Ok(mut values) => {
                        let ghost rest = opt_vals_view(values@);
                        values.insert(0, None);
                        assert(opt_vals_view(values@) =~= seq![None] + rest);
                        Ok(values)
                    },
                    Err(err) => Err(err),
                },
            }
        }
    }

    /// A call of a function with calls nested at most `depth` deep in it.
    pub(crate) fn call_func(&mut self, f: &Func, args: &Vec<Option<Val>>, depth: usize) -> (r:
        Result<Val, Error>)
        ensures
            outcome_of(r, final(self)@) == spec_call(
                old(self)@,
                f@,
                opt_vals_view(args@),
                depth as nat,
            ),
        decreases depth, f, 0nat,
    {
        if args.len() > f.arg_names.len() {
            return Err(Error::ArityError);
        }
        let target = self.scopes.push(Env::new(Some(f.env)));
        match self.bind(f, args, 0, target) {
            Some(err) => Err(err),
            None => {
                let left = unfilled_names(&f.arg_names, args, 0);
                if left.len() > 0 {
                    match curry(&self.scopes, target, &f.expr, &left) {
                        Ok(body) => Ok(function_of(target, left, body, share(&f.codomain))),
                        Err(err) => Err(err),
                    }
                } else {
                    let saved = self.env;
                    self.env = target;
                    let r = self.eval(&f.expr, depth);
                    self.env = saved;
                    r
                }
            },
        }
    }

    /// The value of an expression with calls nested at most `depth` deep.
    pub(crate) fn eval(&mut self, e: &Expr, depth: usize) -> (r: Result<Val, Error>)
        ensures
            outcome_of(r, final(self)@) == spec_eval(old(self)@, e@, depth as nat),
        decreases depth, e, 0nat,
    {
        match e {
            Expr::Literal(v) => Ok(v.clone()),
            Expr::Symbol(name) => match self.scopes.get(self.env, name.as_str()) {
                Some(SymStore::Value(v)) => Ok(v),
                _ => Err(Error::UndefinedSymbol),
            },
            Expr::Group(inner) => self.eval(inner, depth),
            Expr::Unary(op, inner) => match self.eval(inner, depth) {
                Ok(v) => apply_unary(op, v),
                Err(err) => Err(err),
            },
            Expr::Binary(left, op, right) => match self.eval(left, depth) {
                Ok(l) => match self.eval(right, depth) {
                    Ok(r) => apply_binary(l, op, r),
                    Err(err) => Err(err),
                },
                Err(err) => Err(err),
            },
            Expr::Tuple(items) => match self.eval_all(items, 0, depth) {
                Ok(values) => Ok(Val::Tuple(Tuple(values))),
                Err(err) => Err(err),
            },
            Expr::SetLiteral(items) => match self.eval_all(items, 0, depth) {
                Ok(values) => {
                    let set = Rc::new(CanonSet::Finite(FiniteSet::new(values)));
                    Ok(Val::SetValue(self.set_pool.intern(&set)))
                },
                Err(err) => Err(err),
            },
            Expr::Func(params, body) => {
                let scope = new_param_scope(self.env, params);
                let env = self.scopes.push(scope);
                Ok(function_of(env, clone_names(params), clone_expr(body), universe()))
            },
            Expr::Call(callee, args) => match self.eval(callee, depth) {
                Ok(Val::Function(f)) => match self.eval_args(args, 0, depth) {
                    Ok(values) => {
                        if depth == 0 {
                            Err(Error::DepthExceeded)
                        } else {
                            self.call_func(&f, &values, depth - 1)
                        }
                    },
                    Err(err) => Err(err),
                },
                Ok(_) => Err(Error::NotCallable),
                Err(err) => Err(err),
            },
            _ => Err(Error::NotYetImplemented),
        }
    }
}


pub open spec fn sets_outcome_of(r: Result<Vec<Rc<CanonSet>>, Error>, st: InterpView) -> SetsOutcome {
    SetsOutcome {
        result: match r {
            Ok(sets) => Ok(sets_view(sets@)),
            Err(err) => Err(err),
        },
        state: st,
    }
}

pub open spec fn stmt_outcome_of(r: Result<Option<String>, Error>, st: InterpView) -> StmtOutcome {
    StmtOutcome {
        result: match r {
            Ok(Some(line)) => Ok(Some(line@)),
            Ok(None) => Ok(None),
            Err(err) => Err(err),
        },
        state: st,
    }
}

/// The sets from `start` on as the pool hands them out.
fn intern_all(pool: &mut SetPool, sets: &Vec<Rc<CanonSet>>, start: usize) -> (r: Vec<Rc<CanonSet>>)
    ensures
        (sets_view(r@), final(pool)@) == spec_intern_all(old(pool)@, sets_view(sets@), start as nat),
    decreases sets.len() - start,
{
    if start >= sets.len() {
        let out: Vec<Rc<CanonSet>> = Vec::new();
        assert(sets_view(out@) =~= Seq::empty());
        out
    } else {
        let head = pool.intern(&sets[start]);
        let mut rest = intern_all(pool, sets, start + 1);
        let ghost before = sets_view(rest@);
        let ghost first = head@;
        rest.insert(0, head);
        assert(sets_view(rest@) =~= seq![first] + before);
        rest
    }
}

impl Interpreter {
    /// Remembers that the set `ts`, which constrains `name`, refused `v`.
    fn refuse(&mut self, name: &str, ts: &Rc<CanonSet>, v: &Val)
        ensures
            final(self)@ == refused(old(self)@, name@, ts@, v@),
    {
        self.mismatch = Some(
            Mismatch { name: String::from_str(name), set: ts.display(), value: v.display() },
        );
    }

    /// The last value that a constraint refused, with the name and the set.
    pub fn last_mismatch(&self) -> (r: &Option<Mismatch>)
        ensures
            opt_mismatch_view(*r) == self@.mismatch,
    {
        &self.mismatch
    }

    /// Whether `name` holds a value in the current scope or around it.
    fn is_assigned(&self, name: &str) -> (b: bool)
        ensures
            b == assigned(self@, name@),
    {
        match self.scopes.get(self.env, name) {
            Some(SymStore::Value(_)) => true,
            _ => false,
        }
    }

    /// Binds a name to a value in the current scope; a set is interned
    /// first. Gives the value as it is stored.
    pub fn insert_value(&mut self, name: String, value: Val) -> (stored: Val)
        ensures
            final(self)@ == spec_insert_value(old(self)@, name@, value@),
            stored@ == stored_value(old(self)@, value@),
    {
        let stored = match value {
            Val::SetValue(set) => Val::SetValue(self.set_pool.intern(&set)),
            other => other,
        };
        self.scopes.insert(self.env, name, SymStore::Value(stored.clone()));
        stored
    }

    /// Puts a name under the constraint of a set, which is interned first.
    pub fn insert_type_constraint(&mut self, name: String, set: &Rc<CanonSet>)
        ensures
            final(self)@ == spec_insert_type(old(self)@, name@, set@),
    {
        let interned = self.set_pool.intern(set);
        self.scopes.insert(self.env, name, SymStore::Type(interned));
    }

    /// Gives a name the signature of a function; the sets are interned
    /// first.
    pub fn insert_function_signature(
        &mut self,
        name: String,
        params: &Vec<Rc<CanonSet>>,
        codomain: &Rc<CanonSet>,
    )
        ensures
            final(self)@ == spec_insert_signature(
                old(self)@,
                name@,
                sets_view(params@),
                codomain@,
            ),
    {
        let interned = intern_all(&mut self.set_pool, params, 0);
        let last = self.set_pool.intern(codomain);
        self.scopes.insert(self.env, name, SymStore::FuncType(interned, last));
    }

    /// Moves a function to a copy of its scope that constrains its
    /// parameters.
    fn retype(&mut self, f: &Func, types: &Vec<Rc<CanonSet>>) -> (r: Func)
        ensures
            (r@, final(self)@) == spec_retype(old(self)@, f@, sets_view(types@)),
    {
        let mut scope = match self.scopes.scope(f.env) {
            Some(env) => Env::from_env(env),
            None => Env::new(None),
        };
        let ghost base = scope@;
        let ghost pool0 = self.set_pool@;
        let mut i: usize = 0;
        while i < types.len() && i < f.arg_names.len()
            invariant
                self.scopes@ == old(self).scopes@,
                self.env == old(self).env,
                self@.mismatch == old(self)@.mismatch,
                self@.limit == old(self)@.limit,
                spec_retype_scope(base, pool0, names_view(f.arg_names@), sets_view(types@), 0)
                    == spec_retype_scope(
                    scope@,
                    self.set_pool@,
                    names_view(f.arg_names@),
                    sets_view(types@),
                    i as nat,
                ),
            decreases types.len() - i,
        {
            let interned = self.set_pool.intern(&types[i]);
            scope.insert_sym_type(f.arg_names[i].clone(), interned);
            i += 1;
        }
        let env = self.scopes.push(scope);
        Func {
            env,
            arg_names: clone_names(&f.arg_names),
            expr: share(&f.expr),
            codomain: share(&f.codomain),
        }
    }

    /// `name = right` with calls nested at most `depth` deep.
    fn assign(&mut self, name: &str, right: &Expr, depth: usize) -> (r: Result<Val, Error>)
        ensures
            outcome_of(r, final(self)@) == spec_assign(old(self)@, name@, right@, depth as nat),
    {
        if self.is_assigned(name) {
            return Err(Error::ReassignmentError);
        }
        let value = match self.eval(right, depth) {
            Ok(v) => v,
            Err(err) => {
                return Err(err);
            },
        };
        let declared = self.scopes.get(self.env, name);
        let value = match value {
            Val::Function(f) => match declared {
                Some(SymStore::FuncType(types, _)) => {
                    if f.arg_names.len() != types.len() {
                        return Err(Error::ArityError);
                    }
                    Val::Function(self.retype(&f, &types))
                },
                _ => Val::Function(f),
            },
            other => match declared {
                Some(SymStore::Type(ts)) => match ts.contains(&other) {
                    Ok(true) => other,
                    Ok(false) => {
                        self.refuse(name, &ts, &other);
                        return Err(Error::TypeMismatch);
                    },
                    Err(err) => {
                        return Err(err);
                    },
                },
                _ => other,
            },
        };
        Ok(self.insert_value(String::from_str(name), value))
    }

    /// `name : ty = right` with calls nested at most `depth` deep.
    fn typed_assign(&mut self, name: &str, ty: &Expr, right: &Expr, depth: usize) -> (r: Option<
        Error,
    >)
        ensures
            (StepOutcome { error: r, state: final(self)@ }) == spec_typed_assign(
                old(self)@,
                name@,
                ty@,
                right@,
                depth as nat,
            ),
    {
        if self.is_assigned(name) {
            return Some(Error::ReassignmentError);
        }
        match self.eval(ty, depth) {
            Err(err) => Some(err),
            Ok(Val::SetValue(set)) => match self.eval(right, depth) {
                Err(err) => Some(err),
                Ok(value) => match set.contains(&value) {
                    Ok(true) => {
                        self.insert_value(String::from_str(name), value);
                        None
                    },
                    Ok(false) => {
                        self.refuse(name, &set, &value);
                        Some(Error::TypeMismatch)
                    },
                    Err(err) => Some(err),
                },
            },
            Ok(_) => Some(Error::NotASet),
        }
    }

    /// `value : ty` with calls nested at most `depth` deep.
    fn declare_type(&mut self, value: &Expr, ty: &Expr, depth: usize) -> (r: Option<Error>)
        ensures
            (StepOutcome { error: r, state: final(self)@ }) == spec_declare_type(
                old(self)@,
                value@,
                ty@,
                depth as nat,
            ),
    {
        match value {
            Expr::Symbol(name) => {
                if self.is_assigned(name.as_str()) {
                    return Some(Error::NotYetImplemented);
                }
                match self.eval(ty, depth) {
                    Err(err) => Some(err),
                    Ok(Val::SetValue(set)) => {
                        self.insert_type_constraint(name.clone(), &set);
                        None
                    },
                    Ok(_) => Some(Error::NotASet),
                }
            },
            _ => Some(Error::NotYetImplemented),
        }
    }

    /// The sets that the expressions from `start` on evaluate to.
    fn eval_sets(&mut self, items: &Vec<Expr>, start: usize, depth: usize) -> (r: Result<
        Vec<Rc<CanonSet>>,
        Error,
    >)
        ensures
            sets_outcome_of(r, final(self)@) == spec_eval_sets(
                old(self)@,
                exprs_view(items@),
                start as nat,
                depth as nat,
            ),
        decreases items.len() - start,
    {
        if start >= items.len() {
            let out: Vec<Rc<CanonSet>> = Vec::new();
            assert(sets_view(out@) =~= Seq::empty());
            Ok(out)
        } else {
            match self.eval(&items[start], depth) {
                Ok(Val::SetValue(set)) => match self.eval_sets(items, start + 1, depth) {
                    Ok(mut sets) => {
                        let ghost rest = sets_view(sets@);
                        let ghost head = set@;
                        sets.insert(0, set);
                        assert(sets_view(sets@) =~= seq![head] + rest);
                        Ok(sets)
                    },
                    Err(err) => Err(err),
                },
                Ok(_) => Err(Error::NotASet),
                Err(err) => Err(err),
            }
        }
    }

    /// `func : types -> result` with calls nested at most `depth` deep.
    fn declare_signature(
        &mut self,
        func: &Expr,
        types: &Vec<Expr>,
        result: &Expr,
        depth: usize,
    ) -> (r: Option<Error>)
        ensures
            (StepOutcome { error: r, state: final(self)@ }) == spec_declare_signature(
                old(self)@,
                func@,
                exprs_view(types@),
                result@,
                depth as nat,
            ),
    {
        match func {
            Expr::Symbol(name) => {
                if self.is_assigned(name.as_str()) {
                    return Some(Error::NotYetImplemented);
                }
                match self.eval_sets(types, 0, depth) {
                    Err(err) => Some(err),
                    Ok(sets) => match self.eval(result, depth) {
                        Err(err) => Some(err),
                        Ok(Val::SetValue(set)) => {
                            self.insert_function_signature(name.clone(), &sets, &set);
                            None
                        },
                        Ok(_) => Some(Error::NotASet),
                    },
                }
            },
            _ => Some(Error::NotYetImplemented),
        }
    }

    /// A statement with calls nested at most `depth` deep.
    fn run_stmt(&mut self, stmt: &Stmt, depth: usize) -> (r: Result<Option<String>, Error>)
        ensures
            stmt_outcome_of(r, final(self)@) == spec_execute_stmt(
                old(self)@,
                stmt@,
                depth as nat,
            ),
    {
        match stmt {
            Stmt::ExprStmt(e, log) => match e {
                Expr::Assign(name, right) => match self.assign(name.as_str(), right, depth) {
                    Ok(v) => {
                        if *log {
                            let mut line = name.clone();
                            line.append(" = ");
                            line.append(v.display().as_str());
                            Ok(Some(line))
                        } else {
                            Ok(None)
                        }
                    },
                    Err(err) => Err(err),
                },
                Expr::TypedAssign(name, ty, right) => match self.typed_assign(
                    name.as_str(),
                    ty,
                    right,
                    depth,
                ) {
                    Some(err) => Err(err),
                    None => Ok(None),
                },
                Expr::TypeExpr(value, ty) => match self.declare_type(value, ty, depth) {
                    Some(err) => Err(err),
                    None => Ok(None),
                },
                Expr::FuncTypeExpr(func, types, result) => match self.declare_signature(
                    func,
                    types,
                    result,
                    depth,
                ) {
                    Some(err) => Err(err),
                    None => Ok(None),
                },
                _ => match self.eval(e, depth) {
                    Ok(v) => Ok(Some(v.display())),
                    Err(err) => Err(err),
                },
            },
        }
    }
}


/// The texts of a sequence of lines.
pub open spec fn lines_view(lines: Seq<String>) -> Seq<Seq<char>> {
    Seq::new(lines.len(), |i: int| lines[i]@)
}

impl Interpreter {
    fn bind_named_set(&mut self, k: InfiniteSet)
        ensures
            final(self)@ == with_named_set(old(self)@, k),
    {
        self.insert_value(k.name(), Val::SetValue(Rc::new(CanonSet::Infinite(k))));
    }

    /// An interpreter with one scope, in which the named sets are bound to
    /// their names.
    pub fn new() -> (r: Self)
        ensures
            r@ == initial_state(),
    {
        Interpreter::with_call_depth(MAX_CALL_DEPTH)
    }

    /// An interpreter like a new one, which lets calls nest `limit` deep.
    /// Each level of calls takes its share of the machine's stack: the
    /// caller chooses a limit that the stack at hand can hold.
    pub fn with_call_depth(limit: usize) -> (r: Self)
        ensures
            r@ == initial_state_with(limit as nat),
    {
        let mut scopes = Scopes::new();
        let env = scopes.push(Env::new(None));
        let mut r = Interpreter {
            scopes,
            env,
            set_pool: SetPool::new(),
            mismatch: None,
            depth_limit: limit,
        };
        assert(r@.scopes =~= seq![EnvView { parent: None, symbols: Map::empty() }]);
        assert(r@.pool =~= Seq::empty());
        r.bind_named_set(InfiniteSet::Univ);
        r.bind_named_set(InfiniteSet::Empty);
        r.bind_named_set(InfiniteSet::Nat);
        r.bind_named_set(InfiniteSet::Int);
        r.bind_named_set(InfiniteSet::Real);
        r.bind_named_set(InfiniteSet::Complex);
        r.bind_named_set(InfiniteSet::Str);
        r
    }

    /// An interpreter that stands in the scope at `env` of the given scopes
    /// and has met no set.
    pub fn with_env(scopes: Scopes, env: usize) -> (r: Self)
        ensures
            r@ == (InterpView {
                scopes: scopes@,
                env: env as nat,
                pool: Seq::empty(),
                mismatch: None,
                limit: MAX_CALL_DEPTH as nat,
            }),
    {
        let r = Interpreter {
            scopes,
            env,
            set_pool: SetPool::new(),
            mismatch: None,
            depth_limit: MAX_CALL_DEPTH,
        };
        assert(r@.pool =~= Seq::empty());
        r
    }

    /// The scopes of the interpreter.
    pub fn scopes(&self) -> (r: &Scopes)
        ensures
            r@ == self@.scopes,
    {
        &self.scopes
    }

    /// How deep the interpreter lets calls nest.
    pub fn call_depth(&self) -> (r: usize)
        ensures
            r == self@.limit,
    {
        self.depth_limit
    }

    /// The place of the scope the interpreter stands in.
    pub fn env(&self) -> (r: usize)
        ensures
            r == self@.env,
    {
        self.env
    }

    /// What `name` is bound to, as seen from the scope the interpreter
    /// stands in.
    pub fn lookup(&self, name: &str) -> (r: Option<SymStore>)
        ensures
            opt_sym_view(r) == scope_lookup(self@.scopes, self@.env, name@),
    {
        self.scopes.get(self.env, name)
    }

    /// Runs the statements in order up to the first that fails. Gives the
    /// lines to show and the failure, if any.
    pub fn interpret(&mut self, stmts: &Vec<Stmt>) -> (r: (Vec<String>, Option<Error>))
        ensures
            (RunOutcome { lines: lines_view(r.0@), error: r.1, state: final(self)@ })
                == spec_interpret(old(self)@, stmts_view(stmts@), 0, old(self)@.limit),
    {
        let limit = self.depth_limit;
        let ghost total = spec_interpret(old(self)@, stmts_view(stmts@), 0, limit as nat);
        let mut lines: Vec<String> = Vec::new();
        let mut i: usize = 0;
        assert(lines_view(lines@) + total.lines =~= total.lines);
        while i < stmts.len()
            invariant
                i <= stmts.len(),
                limit as nat == old(self)@.limit,
                total == spec_interpret(old(self)@, stmts_view(stmts@), 0, limit as nat),
                ({
                    let rest = spec_interpret(
                        self@,
                        stmts_view(stmts@),
                        i as nat,
                        limit as nat,
                    );
                    &&& total.lines == lines_view(lines@) + rest.lines
                    &&& total.error == rest.error
                    &&& total.state == rest.state
                }),
            decreases stmts.len() - i,
        {
            let ghost before = lines_view(lines@);
            let ghost here = spec_interpret(
                self@,
                stmts_view(stmts@),
                i as nat,
                limit as nat,
            );
            match self.run_stmt(&stmts[i], limit) {
                Err(err) => {
                    assert(here.lines =~= Seq::empty());
                    assert(lines_view(lines@) =~= total.lines);
                    return (lines, Some(err));
                },
                Ok(Some(line)) => {
                    let ghost text = line@;
                    lines.push(line);
                    let ghost rest = spec_interpret(
                        self@,
                        stmts_view(stmts@),
                        (i + 1) as nat,
                        limit as nat,
                    );
                    assert(lines_view(lines@) =~= before.push(text));
                    assert(here.lines == seq![text] + rest.lines);
                    assert(before + (seq![text] + rest.lines) =~= before.push(text) + rest.lines);
                },
                Ok(None) => {},
            }
            i += 1;
        }
        let ghost last = spec_interpret(self@, stmts_view(stmts@), i as nat, limit as nat);
        assert(lines_view(lines@) + last.lines =~= lines_view(lines@));
        (lines, None)
    }

    /// Runs a statement. Gives the line to show, if any.
    pub fn execute_stmt(&mut self, stmt: &Stmt) -> (r: Result<Option<String>, Error>)
        ensures
            stmt_outcome_of(r, final(self)@) == spec_execute_stmt(
                old(self)@,
                stmt@,
                old(self)@.limit,
            ),
    {
        let limit = self.depth_limit;
        self.run_stmt(stmt, limit)
    }

    /// The value of an expression.
    pub fn execute_expr(&mut self, expr: &Expr) -> (r: Result<Val, Error>)
        ensures
            outcome_of(r, final(self)@) == spec_eval(old(self)@, expr@, old(self)@.limit),
    {
        let limit = self.depth_limit;
        self.eval(expr, limit)
    }

    /// The expression with the symbols that hold values, but for those named
    /// in `symbols`, replaced by their values.
    pub fn curry_expr(&self, expr: &Expr, symbols: &Vec<String>) -> (r: Result<Expr, Error>)
        ensures
            expr_result_view(r) == spec_curry(
                self@.scopes,
                self@.env,
                expr@,
                names_view(symbols@),
            ),
    {
        curry(&self.scopes, self.env, expr, symbols)
    }

    /// The expression with the symbols named in `find_args` renamed to those
    /// at the same places in `replace_with`.
    pub fn substitute_symbols(expr: &Expr, find_args: &Vec<String>, replace_with: &Vec<String>) -> (r:
        Expr)
        ensures
            r@ == spec_substitute(expr@, names_view(find_args@), names_view(replace_with@)),
    {
        substitute(expr, find_args, replace_with)
    }

    /// The set of the values of the expressions, as the pool hands it out.
    pub fn execute_set(&mut self, exprs: &Vec<Expr>) -> (r: Result<Val, Error>)
        ensures
            outcome_of(r, final(self)@) == spec_eval(
                old(self)@,
                ExprView::SetLiteral(exprs_view(exprs@)),
                old(self)@.limit,
            ),
    {
        let limit = self.depth_limit;
        self.eval(&Expr::SetLiteral(clone_exprs(exprs)), limit)
    }

    /// `name = right`. Gives the value as it is stored.
    pub fn execute_assign(&mut self, name: &str, right: &Expr) -> (r: Result<Val, Error>)
        ensures
            outcome_of(r, final(self)@) == spec_assign(
                old(self)@,
                name@,
                right@,
                old(self)@.limit,
            ),
    {
        let limit = self.depth_limit;
        self.assign(name, right, limit)
    }

    /// `name : typeset = right`.
    pub fn execute_typed_assign(&mut self, name: &str, typeset: &Expr, right: &Expr) -> (r: Result<
        (),
        Error,
    >)
        ensures
            (StepOutcome {
                error: match r {
                    Ok(_) => None,
                    Err(err) => Some(err),
                },
                state: final(self)@,
            }) == spec_typed_assign(old(self)@, name@, typeset@, right@, old(self)@.limit),
    {
        let limit = self.depth_limit;
        match self.typed_assign(name, typeset, right, limit) {
            Some(err) => Err(err),
            None => Ok(()),
        }
    }
}

impl Func {
    /// A function made in the scope at `env`.
    pub fn new(env: usize, arg_names: &Vec<String>, expr: Expr, interned_set: &Rc<CanonSet>) -> (r:
        Self)
        ensures
            r@ == (FuncView {
                env: env as nat,
                arg_names: names_view(arg_names@),
                expr: Box::new(expr@),
                codomain: interned_set@,
            }),
    {
        Func {
            env,
            arg_names: clone_names(arg_names),
            expr: Rc::new(expr),
            codomain: share(interned_set),
        }
    }

    /// The function that a function literal stands for in the scope at
    /// `parent`: a new scope within it puts the parameters under the
    /// constraint of the set of everything.
    pub fn from_func_expr(params: &Vec<String>, body: &Expr, scopes: &mut Scopes, parent: usize) -> (r:
        Self)
        ensures
            final(scopes)@ == old(scopes)@.push(
                param_scope(parent as nat, names_view(params@), params.len() as nat),
            ),
            r@ == (FuncView {
                env: old(scopes)@.len(),
                arg_names: names_view(params@),
                expr: Box::new(body@),
                codomain: univ(),
            }),
    {
        let env = scopes.push(new_param_scope(parent, params));
        Func {
            env,
            arg_names: clone_names(params),
            expr: Rc::new(clone_expr(body)),
            codomain: universe(),
        }
    }

    /// The same function in another scope.
    pub fn clone_with_env(&self, new_env: usize) -> (r: Self)
        ensures
            r@ == (FuncView { env: new_env as nat, ..self@ }),
    {
        Func {
            env: new_env,
            arg_names: clone_names(&self.arg_names),
            expr: share(&self.expr),
            codomain: share(&self.codomain),
        }
    }

    /// Calls the function; an argument left out is `None`.
    pub fn call(&self, interpreter: &mut Interpreter, args: &Vec<Option<Val>>) -> (r: Result<
        Val,
        Error,
    >)
        ensures
            outcome_of(r, final(interpreter)@) == spec_call(
                old(interpreter)@,
                self@,
                opt_vals_view(args@),
                old(interpreter)@.limit,
            ),
    {
        let limit = interpreter.depth_limit;
        interpreter.call_func(self, args, limit)
    }

    /// Whether the scope of the function itself binds the name.
    pub fn is_defined(&self, scopes: &Scopes, name: &str) -> (b: bool)
        ensures
            b == (self@.env < scopes@.len() && scopes@[self@.env as int].symbols.contains_key(
                name@,
            )),
    {
        match scopes.scope(self.env) {
            Some(env) => env.contains_key(name),
            None => false,
        }
    }

    /// Binds a name to a value in the scope of the function.
    pub fn define(&mut self, scopes: &mut Scopes, name: &str, value: Val)
        ensures
            final(self)@ == old(self)@,
            final(scopes)@ == scopes_insert(
                old(scopes)@,
                old(self)@.env,
                name@,
                SymStoreView::Value(value@),
            ),
    {
        scopes.insert(self.env, String::from_str(name), SymStore::Value(value));
    }

    /// The number of parameters.
    pub fn arity(&self) -> (n: usize)
        ensures
            n == self@.arg_names.len(),
    {
        self.arg_names.len()
    }

    /// The place of the scope of the function.
    pub fn env(&self) -> (r: usize)
        ensures
            r == self@.env,
    {
        self.env
    }

    /// The names of the parameters.
    pub fn args(&self) -> (r: &Vec<String>)
        ensures
            names_view(r@) == self@.arg_names,
    {
        &self.arg_names
    }

    /// The body.
    pub fn expr(&self) -> (r: &Expr)
        ensures
            r@ == *self@.expr,
    {
        &self.expr
    }

    /// The set that the results belong to.
    pub fn codomain(&self) -> (r: &Rc<CanonSet>)
        ensures
            r@ == self@.codomain,
    {
        &self.codomain
    }
}

} // verus!
