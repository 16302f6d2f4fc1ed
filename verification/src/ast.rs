//! The syntax tree that the parser builds and the interpreter walks.

use crate::token::{Token, TokenView};
use crate::value::{clone_names, names_view, val_view, Val, ValView};
use vstd::prelude::*;

verus! {

/// An expression.
#[derive(Debug)]
pub enum Expr {
    /// A value written out.
    Literal(Val),
    Symbol(String),
    /// An expression in parentheses.
    Group(Box<Expr>),
    Unary(Token, Box<Expr>),
    Binary(Box<Expr>, Token, Box<Expr>),
    /// A call; an argument left out is `None`.
    Call(Box<Expr>, Vec<Option<Expr>>),
    Assign(String, Box<Expr>),
    /// A name, its type and its value.
    TypedAssign(String, Box<Expr>, Box<Expr>),
    /// Parameter names and a body.
    Func(Vec<String>, Box<Expr>),
    Tuple(Vec<Expr>),
    Matrix(Vec<Vec<Expr>>),
    SetLiteral(Vec<Expr>),
    /// A value and its type.
    TypeExpr(Box<Expr>, Box<Expr>),
    /// A function, the types of its parameters and the type of its results.
    FuncTypeExpr(Box<Expr>, Vec<Expr>, Box<Expr>),
}

pub ghost enum ExprView {
    Literal(ValView),
    Symbol(Seq<char>),
    Group(Box<ExprView>),
    Unary(TokenView, Box<ExprView>),
    Binary(Box<ExprView>, TokenView, Box<ExprView>),
    Call(Box<ExprView>, Seq<Option<ExprView>>),
    Assign(Seq<char>, Box<ExprView>),
    TypedAssign(Seq<char>, Box<ExprView>, Box<ExprView>),
    Func(Seq<Seq<char>>, Box<ExprView>),
    Tuple(Seq<ExprView>),
    Matrix(Seq<Seq<ExprView>>),
    SetLiteral(Seq<ExprView>),
    TypeExpr(Box<ExprView>, Box<ExprView>),
    FuncTypeExpr(Box<ExprView>, Seq<ExprView>, Box<ExprView>),
}

pub open spec fn expr_view(e: Expr) -> ExprView
    decreases e,
{
    match e {
        Expr::Literal(v) => ExprView::Literal(val_view(v)),
        Expr::Symbol(name) => ExprView::Symbol(name@),
        Expr::Group(inner) => ExprView::Group(Box::new(expr_view(*inner))),
        Expr::Unary(op, inner) => ExprView::Unary(op@, Box::new(expr_view(*inner))),
        Expr::Binary(left, op, right) => ExprView::Binary(
            Box::new(expr_view(*left)),
            op@,
            Box::new(expr_view(*right)),
        ),
        Expr::Call(callee, args) => ExprView::Call(
            Box::new(expr_view(*callee)),
            opt_exprs_view(args@),
        ),
        Expr::Assign(name, value) => ExprView::Assign(name@, Box::new(expr_view(*value))),
        Expr::TypedAssign(name, ty, value) => ExprView::TypedAssign(
            name@,
            Box::new(expr_view(*ty)),
            Box::new(expr_view(*value)),
        ),
        Expr::Func(params, body) => ExprView::Func(
            names_view(params@),
            Box::new(expr_view(*body)),
        ),
        Expr::Tuple(items) => ExprView::Tuple(exprs_view(items@)),
        Expr::Matrix(rows) => ExprView::Matrix(rows_view(rows@)),
        Expr::SetLiteral(items) => ExprView::SetLiteral(exprs_view(items@)),
        Expr::TypeExpr(value, ty) => ExprView::TypeExpr(
            Box::new(expr_view(*value)),
            Box::new(expr_view(*ty)),
        ),
        Expr::FuncTypeExpr(func, params, result) => ExprView::FuncTypeExpr(
            Box::new(expr_view(*func)),
            exprs_view(params@),
            Box::new(expr_view(*result)),
        ),
    }
}

pub open spec fn exprs_view(s: Seq<Expr>) -> Seq<ExprView>
    decreases s,
{
    Seq::new(
        s.len(),
        |i: int|
            if 0 <= i < s.len() {
                expr_view(s[i])
            } else {
                arbitrary()
            },
    )
}

pub open spec fn opt_expr_view(e: Option<Expr>) -> Option<ExprView>
    decreases e,
{
    match e {
        Some(inner) => Some(expr_view(inner)),
        None => None,
    }
}

pub open spec fn opt_exprs_view(s: Seq<Option<Expr>>) -> Seq<Option<ExprView>>
    decreases s,
{
    Seq::new(
        s.len(),
        |i: int|
            if 0 <= i < s.len() {
                opt_expr_view(s[i])
            } else {
                arbitrary()
            },
    )
}

pub open spec fn rows_view(s: Seq<Vec<Expr>>) -> Seq<Seq<ExprView>>
    decreases s,
{
    Seq::new(
        s.len(),
        |i: int|
            if 0 <= i < s.len() {
                exprs_view(s[i]@)
            } else {
                arbitrary()
            },
    )
}

impl View for Expr {
    type V = ExprView;

    open spec fn view(&self) -> ExprView {
        expr_view(*self)
    }
}

/// A statement: an expression, and whether an assignment is to be shown.
#[derive(Debug)]
pub enum Stmt {
    ExprStmt(Expr, bool),
}

pub ghost enum StmtView {
    ExprStmt(ExprView, bool),
}

impl View for Stmt {
    type V = StmtView;

    open spec fn view(&self) -> StmtView {
        match self {
            Stmt::ExprStmt(e, log) => StmtView::ExprStmt(e@, *log),
        }
    }
}


#[verifier::loop_isolation(false)]
pub(crate) fn clone_exprs(items: &Vec<Expr>) -> (r: Vec<Expr>)
    ensures
        exprs_view(r@) == exprs_view(items@),
    decreases items, 1nat,
{
    let mut out: Vec<Expr> = Vec::new();
    let mut i: usize = 0;
    while i < items.len()
        invariant
            i <= items.len(),
            out.len() == i,
            forall|j: int| 0 <= j < i ==> out@[j]@ == items@[j]@,
        decreases items.len() - i,
    {
        out.push(clone_expr(&items[i]));
        i += 1;
    }
    assert(exprs_view(out@) =~= exprs_view(items@));
    out
}

#[verifier::loop_isolation(false)]
pub(crate) fn clone_expr(e: &Expr) -> (r: Expr)
    ensures
        r@ == e@,
    decreases e, 0nat,
{
    match e {
        Expr::Literal(v) => Expr::Literal(v.clone()),
        Expr::Symbol(name) => Expr::Symbol(name.clone()),
        Expr::Group(inner) => Expr::Group(Box::new(clone_expr(inner))),
        Expr::Unary(op, inner) => Expr::Unary(op.clone(), Box::new(clone_expr(inner))),
        Expr::Binary(left, op, right) => Expr::Binary(
            Box::new(clone_expr(left)),
            op.clone(),
            Box::new(clone_expr(right)),
        ),
        Expr::Call(callee, args) => {
            let mut out: Vec<Option<Expr>> = Vec::new();
            let mut i: usize = 0;
            while i < args.len()
                invariant
                    i <= args.len(),
                    out.len() == i,
                    forall|j: int| 0 <= j < i ==> opt_expr_view(out@[j]) == opt_expr_view(args@[j]),
                decreases args.len() - i,
            {
                match &args[i] {
                    Some(arg) => out.push(Some(clone_expr(arg))),
                    None => out.push(None),
                }
                i += 1;
            }
            assert(opt_exprs_view(out@) =~= opt_exprs_view(args@));
            Expr::Call(Box::new(clone_expr(callee)), out)
        },
        Expr::Assign(name, value) => Expr::Assign(name.clone(), Box::new(clone_expr(value))),
        Expr::TypedAssign(name, ty, value) => Expr::TypedAssign(
            name.clone(),
            Box::new(clone_expr(ty)),
            Box::new(clone_expr(value)),
        ),
        Expr::Func(params, body) => Expr::Func(clone_names(params), Box::new(clone_expr(body))),
        Expr::Tuple(items) => Expr::Tuple(clone_exprs(items)),
        Expr::Matrix(rows) => {
            let mut out: Vec<Vec<Expr>> = Vec::new();
            let mut i: usize = 0;
            while i < rows.len()
                invariant
                    i <= rows.len(),
                    out.len() == i,
                    forall|j: int| 0 <= j < i ==> exprs_view(out@[j]@) == exprs_view(rows@[j]@),
                decreases rows.len() - i,
            {
                out.push(clone_exprs(&rows[i]));
                i += 1;
            }
            assert(rows_view(out@) =~= rows_view(rows@));
            Expr::Matrix(out)
        },
        Expr::SetLiteral(items) => Expr::SetLiteral(clone_exprs(items)),
        Expr::TypeExpr(value, ty) => Expr::TypeExpr(
            Box::new(clone_expr(value)),
            Box::new(clone_expr(ty)),
        ),
        Expr::FuncTypeExpr(func, params, result) => Expr::FuncTypeExpr(
            Box::new(clone_expr(func)),
            clone_exprs(params),
            Box::new(clone_expr(result)),
        ),
    }
}

impl Clone for Expr {
    fn clone(&self) -> (r: Self)
        ensures
            r@ == self@,
    {
        clone_expr(self)
    }
}

impl Clone for Stmt {
    fn clone(&self) -> (r: Self)
        ensures
            r@ == self@,
    {
        match self {
            Stmt::ExprStmt(e, log) => Stmt::ExprStmt(clone_expr(e), *log),
        }
    }
}

/// A parsed program: its statements in order.
#[derive(Debug)]
pub struct Ast {
    stmts: Vec<Stmt>,
}

pub open spec fn stmts_view(s: Seq<Stmt>) -> Seq<StmtView> {
    Seq::new(s.len(), |i: int| s[i]@)
}

impl View for Ast {
    type V = Seq<StmtView>;

    closed spec fn view(&self) -> Seq<StmtView> {
        stmts_view(self.stmts@)
    }
}

impl Ast {
    pub fn new() -> (r: Self)
        ensures
            r@ == Seq::<StmtView>::empty(),
    {
        let r = Ast { stmts: Vec::new() };
        assert(r@ =~= Seq::<StmtView>::empty());
        r
    }

    pub fn push_stmt(&mut self, stmt: Stmt)
        ensures
            final(self)@ == old(self)@.push(stmt@),
    {
        self.stmts.push(stmt);
        assert(self@ =~= old(self)@.push(stmt@));
    }

    pub fn stmts(&self) -> (r: &Vec<Stmt>)
        ensures
            stmts_view(r@) == self@,
    {
        &self.stmts
    }
}


pub(crate) fn literal_of(v: Val) -> (r: Expr)
    ensures
        r@ == ExprView::Literal(v@),
{
    Expr::Literal(v)
}

pub(crate) fn symbol_of(name: String) -> (r: Expr)
    ensures
        r@ == ExprView::Symbol(name@),
{
    Expr::Symbol(name)
}

pub(crate) fn group_of(e: Expr) -> (r: Expr)
    ensures
        r@ == ExprView::Group(Box::new(e@)),
{
    Expr::Group(Box::new(e))
}

pub(crate) fn unary_of(op: Token, e: Expr) -> (r: Expr)
    ensures
        r@ == ExprView::Unary(op@, Box::new(e@)),
{
    Expr::Unary(op, Box::new(e))
}

pub(crate) fn binary_of(l: Expr, op: Token, r: Expr) -> (out: Expr)
    ensures
        out@ == ExprView::Binary(Box::new(l@), op@, Box::new(r@)),
{
    Expr::Binary(Box::new(l), op, Box::new(r))
}

pub(crate) fn call_of(callee: Expr, args: Vec<Option<Expr>>) -> (r: Expr)
    ensures
        r@ == ExprView::Call(Box::new(callee@), opt_exprs_view(args@)),
{
    Expr::Call(Box::new(callee), args)
}

pub(crate) fn func_of(names: Vec<String>, body: Expr) -> (r: Expr)
    ensures
        r@ == ExprView::Func(names_view(names@), Box::new(body@)),
{
    Expr::Func(names, Box::new(body))
}

pub(crate) fn assign_of(name: String, value: Expr) -> (r: Expr)
    ensures
        r@ == ExprView::Assign(name@, Box::new(value@)),
{
    Expr::Assign(name, Box::new(value))
}

pub(crate) fn typed_assign_of(name: String, ty: Box<Expr>, value: Expr) -> (r: Expr)
    ensures
        r@ == ExprView::TypedAssign(name@, Box::new(ty@), Box::new(value@)),
{
    Expr::TypedAssign(name, ty, Box::new(value))
}

pub(crate) fn type_expr_of(value: Expr, ty: Expr) -> (r: Expr)
    ensures
        r@ == ExprView::TypeExpr(Box::new(value@), Box::new(ty@)),
{
    Expr::TypeExpr(Box::new(value), Box::new(ty))
}

pub(crate) fn func_type_of(func: Expr, types: Vec<Expr>, result: Expr) -> (r: Expr)
    ensures
        r@ == ExprView::FuncTypeExpr(Box::new(func@), exprs_view(types@), Box::new(result@)),
{
    Expr::FuncTypeExpr(Box::new(func), types, Box::new(result))
}

} // verus!
