//! The text of values, sets and expressions, as shown to the user and as
//! joined to a text by `+`.

use crate::ast::{exprs_view, opt_exprs_view, rows_view, Expr, ExprView};
use crate::number::{complex_text, integer_text, ratio_text};
use crate::set::{infinite_name, CanonSet, SetView};
use crate::token::lexeme_of;
use crate::value::{names_view, vals_view, Func, Tuple, Val, ValView};
use vstd::prelude::*;

verus! {

/// The text of a value.
pub open spec fn render_val(v: ValView) -> Seq<char>
    decreases v, 0nat,
{
    match v {
        ValView::Integer(i) => integer_text(i),
        ValView::Rational(q) => ratio_text(q),
        ValView::Complex(c) => complex_text(c),
        ValView::Text(s) => s,
        ValView::Boolean(b) => if b {
            "true"@
        } else {
            "false"@
        },
        ValView::Tuple(items) => "["@ + render_vals(items, 0) + "]"@,
        ValView::SetValue(s) => render_set(s),
        ValView::Function(f) => render_params(f.arg_names) + " -> "@ + render_expr(*f.expr),
    }
}

/// The texts of the values from `start` on, with `, ` between them.
pub open spec fn render_vals(items: Seq<ValView>, start: nat) -> Seq<char>
    decreases items, items.len() - start,
{
    if start >= items.len() {
        Seq::empty()
    } else if start + 1 == items.len() {
        render_val(items[start as int])
    } else {
        render_val(items[start as int]) + ", "@ + render_vals(items, start + 1)
    }
}

/// The text of a set.
pub open spec fn render_set(s: SetView) -> Seq<char>
    decreases s, 0nat,
{
    match s {
        SetView::Finite(items) => "{"@ + render_vals(items, 0) + "}"@,
        SetView::Infinite(k) => infinite_name(k),
        SetView::Union(a, b) => render_set(*a) + " | "@ + render_set(*b),
        SetView::Intersect(a, b) => render_set(*a) + " & "@ + render_set(*b),
        SetView::SymDiff(a, b) => render_set(*a) + " ~ "@ + render_set(*b),
        SetView::Exclusion(a, b) => render_set(*a) + " \\ "@ + render_set(*b),
        SetView::Complement(a) => "~"@ + render_set(*a),
    }
}

/// The names from `start` on, with `, ` between them.
pub open spec fn render_names(names: Seq<Seq<char>>, start: nat) -> Seq<char>
    decreases names.len() - start,
{
    if start >= names.len() {
        Seq::empty()
    } else if start + 1 == names.len() {
        names[start as int]
    } else {
        names[start as int] + ", "@ + render_names(names, start + 1)
    }
}

/// The parameters of a function: a single name as it is, else the names in
/// parentheses.
pub open spec fn render_params(names: Seq<Seq<char>>) -> Seq<char> {
    if names.len() == 1 {
        names[0]
    } else {
        "("@ + render_names(names, 0) + ")"@
    }
}

/// The text of an expression.
pub open spec fn render_expr(e: ExprView) -> Seq<char>
    decreases e, 0nat,
{
    match e {
        ExprView::Literal(v) => render_val(v),
        ExprView::Symbol(name) => name,
        ExprView::Group(inner) => "("@ + render_expr(*inner) + ")"@,
        ExprView::Unary(op, inner) => lexeme_of(op.kind) + render_expr(*inner),
        ExprView::Binary(left, op, right) => render_expr(*left) + " "@ + lexeme_of(op.kind) + " "@
            + render_expr(*right),
        ExprView::Call(callee, args) => render_expr(*callee) + "("@ + render_args(args, 0) + ")"@,
        ExprView::Assign(name, value) => name + " = "@ + render_expr(*value),
        ExprView::TypedAssign(name, ty, value) => name + " : "@ + render_expr(*ty) + " = "@
            + render_expr(*value),
        ExprView::Func(params, body) => render_params(params) + " -> "@ + render_expr(*body),
        ExprView::Tuple(items) => "["@ + render_exprs(items, 0, Seq::empty()) + "]"@,
        ExprView::Matrix(rows) => "[ "@ + render_rows(rows, 0) + "]"@,
        ExprView::SetLiteral(items) => "{"@ + render_exprs(items, 0, Seq::empty()) + "}"@,
        ExprView::TypeExpr(value, ty) => render_expr(*value) + " : "@ + render_expr(*ty),
        ExprView::FuncTypeExpr(func, params, result) => render_expr(*func) + " : "@
            + render_exprs(params, 0, ", "@) + " -> "@ + render_expr(*result),
    }
}

/// The texts of the expressions from `start` on, with `between` between
/// them.
pub open spec fn render_exprs(items: Seq<ExprView>, start: nat, between: Seq<char>) -> Seq<char>
    decreases items, items.len() - start,
{
    if start >= items.len() {
        Seq::empty()
    } else if start + 1 == items.len() {
        render_expr(items[start as int])
    } else {
        render_expr(items[start as int]) + between + render_exprs(items, start + 1, between)
    }
}

/// The texts of the arguments from `start` on, with `, ` between them; an
/// argument left out has no text.
pub open spec fn render_args(args: Seq<Option<ExprView>>, start: nat) -> Seq<char>
    decreases args, args.len() - start,
{
    if start >= args.len() {
        Seq::empty()
    } else {
        let head = match args[start as int] {
            Some(arg) => render_expr(arg),
            None => Seq::empty(),
        };
        if start + 1 == args.len() {
            head
        } else {
            head + ", "@ + render_args(args, start + 1)
        }
    }
}

/// The rows from `start` on: the expressions of a row with `, ` between
/// them, `; ` after a row that another follows and a blank after the last.
pub open spec fn render_rows(rows: Seq<Seq<ExprView>>, start: nat) -> Seq<char>
    decreases rows, rows.len() - start,
{
    if start >= rows.len() {
        Seq::empty()
    } else {
        render_exprs(rows[start as int], 0, ", "@) + (if rows[start as int].len() == 0 {
            Seq::empty()
        } else if start + 1 == rows.len() {
            " "@
        } else {
            "; "@
        }) + render_rows(rows, start + 1)
    }
}


pub(crate) fn display_vals(items: &Vec<Val>, start: usize) -> (r: String)
    ensures
        r@ == render_vals(vals_view(items@), start as nat),
    decreases items, items.len() - start,
{
    proof {
        broadcast use vstd::std_specs::vec::axiom_vec_index_decreases;
    }
    if start >= items.len() {
        String::new()
    } else if start + 1 == items.len() {
        display_val(&items[start])
    } else {
        let mut out = display_val(&items[start]);
        out.append(", ");
        out.append(display_vals(items, start + 1).as_str());
        out
    }
}

pub(crate) fn display_val(v: &Val) -> (r: String)
    ensures
        r@ == render_val(v@),
    decreases v, 0nat,
{
    match v {
        Val::Integer(i) => i.render(),
        Val::Rational(q) => q.render(),
        Val::Complex(c) => c.render(),
        Val::Text(s) => s.clone(),
        Val::Boolean(b) => String::from_str(
            if *b {
                "true"
            } else {
                "false"
            },
        ),
        Val::Tuple(t) => {
            let mut out = String::from_str("[");
            out.append(display_vals(&t.0, 0).as_str());
            out.append("]");
            out
        },
        Val::SetValue(s) => display_set(s),
        Val::Function(f) => {
            let mut out = display_params(&f.arg_names);
            out.append(" -> ");
            out.append(display_expr(&f.expr).as_str());
            out
        },
    }
}

pub(crate) fn display_set(s: &CanonSet) -> (r: String)
    ensures
        r@ == render_set(s@),
    decreases s, 2nat,
{
    match s {
        CanonSet::Finite(f) => f.display(),
        CanonSet::Infinite(k) => k.name(),
        CanonSet::Union(a, b) => {
            let mut out = display_set(a);
            out.append(" | ");
            out.append(display_set(b).as_str());
            out
        },
        CanonSet::Intersect(a, b) => {
            let mut out = display_set(a);
            out.append(" & ");
            out.append(display_set(b).as_str());
            out
        },
        CanonSet::SymDiff(a, b) => {
            let mut out = display_set(a);
            out.append(" ~ ");
            out.append(display_set(b).as_str());
            out
        },
        CanonSet::Exclusion(a, b) => {
            let mut out = display_set(a);
            out.append(" \\ ");
            out.append(display_set(b).as_str());
            out
        },
        CanonSet::Complement(a) => {
            let mut out = String::from_str("~");
            out.append(display_set(a).as_str());
            out
        },
    }
}

pub(crate) fn display_names(names: &Vec<String>, start: usize) -> (r: String)
    ensures
        r@ == render_names(names_view(names@), start as nat),
    decreases names.len() - start,
{
    if start >= names.len() {
        String::new()
    } else if start + 1 == names.len() {
        names[start].clone()
    } else {
        let mut out = names[start].clone();
        out.append(", ");
        out.append(display_names(names, start + 1).as_str());
        out
    }
}

pub(crate) fn display_params(names: &Vec<String>) -> (r: String)
    ensures
        r@ == render_params(names_view(names@)),
{
    if names.len() == 1 {
        names[0].clone()
    } else {
        let mut out = String::from_str("(");
        out.append(display_names(names, 0).as_str());
        out.append(")");
        out
    }
}

pub(crate) fn display_exprs(items: &Vec<Expr>, start: usize, between: &str) -> (r: String)
    ensures
        r@ == render_exprs(exprs_view(items@), start as nat, between@),
    decreases items, items.len() - start,
{
    proof {
        broadcast use vstd::std_specs::vec::axiom_vec_index_decreases;
    }
    if start >= items.len() {
        String::new()
    } else if start + 1 == items.len() {
        display_expr(&items[start])
    } else {
        let mut out = display_expr(&items[start]);
        out.append(between);
        out.append(display_exprs(items, start + 1, between).as_str());
        out
    }
}

pub(crate) fn display_args(args: &Vec<Option<Expr>>, start: usize) -> (r: String)
    ensures
        r@ == render_args(opt_exprs_view(args@), start as nat),
    decreases args, args.len() - start,
{
    proof {
        broadcast use vstd::std_specs::vec::axiom_vec_index_decreases;
    }
    if start >= args.len() {
        String::new()
    } else {
        let mut out = match &args[start] {
            Some(arg) => display_expr(arg),
            None => String::new(),
        };
        if start + 1 == args.len() {
            out
        } else {
            out.append(", ");
            out.append(display_args(args, start + 1).as_str());
            out
        }
    }
}

pub(crate) fn display_rows(rows: &Vec<Vec<Expr>>, start: usize) -> (r: String)
    ensures
        r@ == render_rows(rows_view(rows@), start as nat),
    decreases rows, rows.len() - start,
{
    proof {
        broadcast use vstd::std_specs::vec::axiom_vec_index_decreases;
    }
    if start >= rows.len() {
        String::new()
    } else {
        let mut out = display_exprs(&rows[start], 0, ", ");
        if rows[start].len() == 0 {
            assert(out@ =~= out@ + Seq::<char>::empty());
        } else if start + 1 == rows.len() {
            out.append(" ");
        } else {
            out.append("; ");
        }
        out.append(display_rows(rows, start + 1).as_str());
        out
    }
}

pub(crate) fn display_expr(e: &Expr) -> (r: String)
    ensures
        r@ == render_expr(e@),
    decreases e, 0nat,
{
    match e {
        Expr::Literal(v) => display_val(v),
        Expr::Symbol(name) => name.clone(),
        Expr::Group(inner) => {
            let mut out = String::from_str("(");
            out.append(display_expr(inner).as_str());
            out.append(")");
            out
        },
        Expr::Unary(op, inner) => {
            let mut out = String::from_str(op.lexeme());
            out.append(display_expr(inner).as_str());
            out
        },
        Expr::Binary(left, op, right) => {
            let mut out = display_expr(left);
            out.append(" ");
            out.append(op.lexeme());
            out.append(" ");
            out.append(display_expr(right).as_str());
            out
        },
        Expr::Call(callee, args) => {
            let mut out = display_expr(callee);
            out.append("(");
            out.append(display_args(args, 0).as_str());
            out.append(")");
            out
        },
        Expr::Assign(name, value) => {
            let mut out = name.clone();
            out.append(" = ");
            out.append(display_expr(value).as_str());
            out
        },
        Expr::TypedAssign(name, ty, value) => {
            let mut out = name.clone();
            out.append(" : ");
            out.append(display_expr(ty).as_str());
            out.append(" = ");
            out.append(display_expr(value).as_str());
            out
        },
        Expr::Func(params, body) => {
            let mut out = display_params(params);
            out.append(" -> ");
            out.append(display_expr(body).as_str());
            out
        },
        Expr::Tuple(items) => {
            let mut out = String::from_str("[");
            out.append(display_exprs(items, 0, "").as_str());
            out.append("]");
            proof {
                reveal_strlit("");
                assert(""@ =~= Seq::<char>::empty());
            }
            out
        },
        Expr::Matrix(rows) => {
            let mut out = String::from_str("[ ");
            out.append(display_rows(rows, 0).as_str());
            out.append("]");
            out
        },
        Expr::SetLiteral(items) => {
            let mut out = String::from_str("{");
            out.append(display_exprs(items, 0, "").as_str());
            out.append("}");
            proof {
                reveal_strlit("");
                assert(""@ =~= Seq::<char>::empty());
            }
            out
        },
        Expr::TypeExpr(value, ty) => {
            let mut out = display_expr(value);
            out.append(" : ");
            out.append(display_expr(ty).as_str());
            out
        },
        Expr::FuncTypeExpr(func, params, result) => {
            let mut out = display_expr(func);
            out.append(" : ");
            out.append(display_exprs(params, 0, ", ").as_str());
            out.append(" -> ");
            out.append(display_expr(result).as_str());
            out
        },
    }
}

impl Val {
    /// The text of the value.
    pub fn display(&self) -> (r: String)
        ensures
            r@ == render_val(self@),
    {
        display_val(self)
    }
}

impl CanonSet {
    /// The text of the set.
    pub fn display(&self) -> (r: String)
        ensures
            r@ == render_set(self@),
    {
        display_set(self)
    }
}

impl Expr {
    /// The text of the expression.
    pub fn display(&self) -> (r: String)
        ensures
            r@ == render_expr(self@),
    {
        display_expr(self)
    }
}

} // verus!
