//! The parser: from tokens to statements.

use crate::arithmetic::lemma_pow_nonzero;
use crate::ast::{
    assign_of, binary_of, call_of, exprs_view, func_of, func_type_of, group_of,
    literal_of, opt_exprs_view, rows_view, symbol_of, type_expr_of,
    typed_assign_of, unary_of, Ast, Expr, ExprView, Stmt, StmtView,
};
use crate::error::Error;
use crate::grammar::{
    assignment, finish_call, imaginary, kind_at, level_op, param_names, parse_args,
    parse_call, parse_expr, parse_ident, parse_level, parse_level_rest, parse_list, parse_number,
    parse_power, parse_primary, parse_program, parse_set, parse_stmt, parse_type, parse_unary,
    Parsed, ParsedArgs, ParsedStmt,
};
use crate::number::{Complex, Integer, Rational};
use crate::token::{Token, TokenKind, TokenView};
use crate::value::{names_view, Val};
use vstd::prelude::*;

verus! {

/// The views of a sequence of tokens.
pub open spec fn tokens_view(tokens: Seq<Token>) -> Seq<TokenView> {
    Seq::new(tokens.len(), |i: int| tokens[i]@)
}

/// Whether what was read is what the grammar says, and ends within the
/// tokens.
pub open spec fn agrees(r: (Result<Expr, Error>, usize), p: Parsed, len: nat) -> bool {
    match r.0 {
        Ok(e) => p.result == Ok::<ExprView, Error>(e@) && p.pos == r.1 && r.1 < len,
        Err(err) => p.result == Err::<ExprView, Error>(err),
    }
}

pub open spec fn args_agree(r: (Result<Vec<Option<Expr>>, Error>, usize), p: ParsedArgs, len: nat) -> bool {
    match r.0 {
        Ok(args) => p.result == Ok::<Seq<Option<ExprView>>, Error>(opt_exprs_view(args@)) && p.pos
            == r.1 && r.1 < len,
        Err(err) => p.result == Err::<Seq<Option<ExprView>>, Error>(err),
    }
}

pub open spec fn stmt_agrees(r: (Result<Stmt, Error>, usize), p: ParsedStmt, len: nat) -> bool {
    match r.0 {
        Ok(stmt) => p.result == Ok::<StmtView, Error>(stmt@) && p.pos == r.1 && r.1 < len,
        Err(err) => p.result == Err::<StmtView, Error>(err),
    }
}

/// The kind of the token at place `i`.
fn kind_of(tokens: &Vec<Token>, i: usize) -> (r: Option<&TokenKind>)
    ensures
        match r {
            Some(k) => kind_at(tokens_view(tokens@), i as nat) == Some(k@) && i < tokens.len(),
            None => kind_at(tokens_view(tokens@), i as nat) is None,
        },
{
    if i < tokens.len() {
        Some(tokens[i].kind())
    } else {
        None
    }
}

/// Whether the token behind the one at place `pos` is of the given kind.
fn next_is(tokens: &Vec<Token>, pos: usize, kind: &TokenKind) -> (b: bool)
    requires
        pos < tokens.len(),
    ensures
        b == (kind_at(tokens_view(tokens@), (pos + 1) as nat) == Some(kind@)),
        b ==> pos + 1 < tokens.len(),
{
    match kind_of(tokens, pos + 1) {
        Some(k) => k.same(kind),
        None => false,
    }
}

fn is_word(word: &String, text: &str) -> (b: bool)
    ensures
        b == (word@ == text@),
{
    let other = String::from_str(text);
    *word == other
}

fn ident(word: &String) -> (r: Result<Expr, Error>)
    ensures
        crate::interpreter::expr_result_view(r) == parse_ident(word@),
{
    if is_word(word, "i") {
        let zero = Rational::from_integer(&Integer::from_u32(0));
        let one = Rational::from_integer(&Integer::from_u32(1));
        Ok(literal_of(Val::Complex(Complex::new(zero, one))))
    } else if is_word(word, "true") {
        Ok(literal_of(Val::Boolean(true)))
    } else if is_word(word, "false") {
        Ok(literal_of(Val::Boolean(false)))
    } else if is_word(word, "do") || is_word(word, "end") || is_word(word, "data") || is_word(
        word,
        "class",
    ) || is_word(word, "object") || is_word(word, "import") || is_word(word, "as") || is_word(
        word,
        "proc",
    ) {
        Err(Error::NotYetImplemented)
    } else {
        Ok(symbol_of(word.clone()))
    }
}

fn imaginary_of(v: Val) -> (r: Val)
    ensures
        r@ == imaginary(v@),
{
    let zero = Rational::from_integer(&Integer::from_u32(0));
    match v {
        Val::Integer(n) => Val::Complex(Complex::new(zero, Rational::from_integer(&n))),
        Val::Rational(q) => Val::Complex(Complex::new(zero, q)),
        other => other,
    }
}

fn number(tokens: &Vec<Token>, i: usize, whole: &String) -> (r: (Result<Expr, Error>, usize))
    requires
        i < tokens.len(),
    ensures
        agrees(r, parse_number(tokens_view(tokens@), i as nat, whole@), tokens@.len()),
{
    let read: Result<(Val, usize), Error> = if next_is(tokens, i, &TokenKind::Dot) {
        match kind_of(tokens, i + 2) {
            Some(TokenKind::Number(part)) => {
                let mut joined = whole.clone();
                joined.append(part.as_str());
                let digits = part.as_str().unicode_len();
                match Integer::parse(joined.as_str()) {
                    Some(n) => {
                        if digits <= 0xffff_ffff {
                            let scale = Integer::from_u32(10).power(digits as u32);
                            proof {
                                lemma_pow_nonzero(10, digits as nat);
                            }
                            match Rational::new(&n, &scale) {
                                Some(q) => Ok((Val::Rational(q), i + 2)),
                                None => Err(Error::Syntax),
                            }
                        } else {
                            Err(Error::Syntax)
                        }
                    },
                    None => Err(Error::Syntax),
                }
            },
            _ => match Integer::parse(whole.as_str()) {
                Some(n) => Ok((Val::Integer(n), i + 1)),
                None => Err(Error::Syntax),
            },
        }
    } else {
        match Integer::parse(whole.as_str()) {
            Some(n) => Ok((Val::Integer(n), i)),
            None => Err(Error::Syntax),
        }
    };
    match read {
        Ok((v, pos)) => {
            if next_is(tokens, pos, &TokenKind::Ident(String::from_str("i"))) {
                (Ok(literal_of(imaginary_of(v))), pos + 1)
            } else {
                (Ok(literal_of(v)), pos)
            }
        },
        Err(err) => (Err(err), 0),
    }
}

fn is_level_op(level: u8, k: &TokenKind) -> (b: bool)
    ensures
        b == level_op(level as nat, k@),
{
    match level {
        1 => match k {
            TokenKind::Slash | TokenKind::Star => true,
            _ => false,
        },
        2 => match k {
            TokenKind::Plus | TokenKind::Minus => true,
            _ => false,
        },
        3 => match k {
            TokenKind::Amp | TokenKind::Bar | TokenKind::BackSlash | TokenKind::Tilde => true,
            _ => false,
        },
        4 => match k {
            TokenKind::EqColon
            | TokenKind::LessColon
            | TokenKind::GreaterColon
            | TokenKind::LessEqColon
            | TokenKind::GreaterEqColon => true,
            _ => false,
        },
        5 => match k {
            TokenKind::DblEq
            | TokenKind::Less
            | TokenKind::Greater
            | TokenKind::LessEq
            | TokenKind::GreaterEq => true,
            _ => false,
        },
        6 => match k {
            TokenKind::DblAmp => true,
            _ => false,
        },
        7 => match k {
            TokenKind::DblBar => true,
            _ => false,
        },
        _ => false,
    }
}

fn names_of(args: &Vec<Option<Expr>>, start: usize) -> (r: Option<Vec<String>>)
    ensures
        match r {
            Some(names) => param_names(opt_exprs_view(args@), start as nat) == Some(
                names_view(names@),
            ),
            None => param_names(opt_exprs_view(args@), start as nat) is None,
        },
    decreases args.len() - start,
{
    if start >= args.len() {
        let out: Vec<String> = Vec::new();
        assert(names_view(out@) =~= Seq::empty());
        Some(out)
    } else {
        match &args[start] {
            Some(Expr::Symbol(name)) => match names_of(args, start + 1) {
                Some(mut names) => {
                    let ghost rest = names_view(names@);
                    names.insert(0, name.clone());
                    assert(names_view(names@) =~= seq![name@] + rest);
                    Some(names)
                },
                None => None,
            },
            _ => None,
        }
    }
}

fn assign_to(left: Expr, right: Expr) -> (r: Result<Expr, Error>)
    ensures
        crate::interpreter::expr_result_view(r) == assignment(left@, right@),
{
    let ghost lv = left@;
    match left {
        Expr::Call(callee, args) => {
            assert(lv == ExprView::Call(Box::new(callee@), opt_exprs_view(args@)));
            match *callee {
                Expr::Symbol(name) => {
                    assert(callee@ == ExprView::Symbol(name@));
                    match names_of(&args, 0) {
                        Some(names) => Ok(assign_of(name, func_of(names, right))),
                        None => Err(Error::Syntax),
                    }
                },
                other => {
                    assert(!(callee@ is Symbol));
                    Err(Error::Syntax)
                },
            }
        },
        Expr::Symbol(name) => Ok(assign_of(name, right)),
        Expr::TypeExpr(value, ty) => {
            assert(lv == ExprView::TypeExpr(Box::new(value@), Box::new(ty@)));
            match *value {
                Expr::Symbol(name) => {
                    assert(value@ == ExprView::Symbol(name@));
                    Ok(typed_assign_of(name, ty, right))
                },
                other => {
                    assert(!(value@ is Symbol));
                    Err(Error::Syntax)
                },
            }
        },
        _ => Err(Error::Syntax),
    }
}

#[verifier::rlimit(100)]
fn primary(tokens: &Vec<Token>, i: usize) -> (r: (Result<Expr, Error>, usize))
    ensures
        agrees(r, parse_primary(tokens_view(tokens@), i as nat), tokens@.len()),
    decreases tokens.len() - i, 0nat,
{
    match kind_of(tokens, i) {
        Some(TokenKind::Ident(word)) => (ident(word), i),
        Some(TokenKind::String(text)) => (Ok(literal_of(Val::Text(text.clone()))), i),
        Some(TokenKind::Char(text)) => (Ok(literal_of(Val::Text(text.clone()))), i),
        Some(TokenKind::Number(whole)) => number(tokens, i, whole),
        Some(TokenKind::OpenParen) => {
            let (inner, pos) = expression(tokens, i + 1);
            match inner {
                Ok(e) => {
                    if next_is(tokens, pos, &TokenKind::CloseParen) {
                        (Ok(group_of(e)), pos + 1)
                    } else {
                        (Err(Error::Syntax), 0)
                    }
                },
                Err(err) => (Err(err), 0),
            }
        },
        Some(TokenKind::OpenBracket) => {
            let rows: Vec<Vec<Expr>> = Vec::new();
            let row: Vec<Expr> = Vec::new();
            assert(rows_view(rows@) =~= Seq::empty());
            assert(exprs_view(row@) =~= Seq::empty());
            list(tokens, i + 1, rows, row, None)
        },
        Some(TokenKind::OpenBrace) => {
            let items: Vec<Expr> = Vec::new();
            assert(exprs_view(items@) =~= Seq::empty());
            set(tokens, i + 1, items)
        },
        _ => (Err(Error::Syntax), 0),
    }
}

#[verifier::rlimit(100)]
fn list(
    tokens: &Vec<Token>,
    i: usize,
    rows: Vec<Vec<Expr>>,
    row: Vec<Expr>,
    width: Option<usize>,
) -> (r: (Result<Expr, Error>, usize))
    ensures
        agrees(
            r,
            parse_list(
                tokens_view(tokens@),
                i as nat,
                rows_view(rows@),
                exprs_view(row@),
                match width {
                    Some(w) => Some(w as nat),
                    None => None,
                },
            ),
            tokens@.len(),
        ),
    decreases tokens.len() - i, 21nat,
{
    match kind_of(tokens, i) {
        None => (Err(Error::Syntax), 0),
        Some(TokenKind::CloseBracket) => {
            if width.is_some() {
                (Ok(Expr::Matrix(rows)), i)
            } else {
                (Ok(Expr::Tuple(row)), i)
            }
        },
        Some(_) => {
            let (item, pos) = expression(tokens, i);
            match item {
                Err(err) => (Err(err), 0),
                Ok(e) => {
                    let mut longer = row;
                    let ghost before = exprs_view(longer@);
                    let ghost ev = e@;
                    longer.push(e);
                    assert(exprs_view(longer@) =~= before.push(ev));
                    let fits = match width {
                        Some(w) => w == longer.len(),
                        None => true,
                    };
                    match kind_of(tokens, pos + 1) {
                        Some(TokenKind::Comma) => {
                            if pos + 2 > i {
                                list(tokens, pos + 2, rows, longer, width)
                            } else {
                                (Err(Error::Syntax), 0)
                            }
                        },
                        Some(TokenKind::Semicolon) => {
                            if fits && pos + 2 > i {
                                let new_width = match width {
                                    Some(w) => w,
                                    None => longer.len(),
                                };
                                let mut more = rows;
                                let ghost rows_before = rows_view(more@);
                                more.push(longer);
                                assert(rows_view(more@) =~= rows_before.push(before.push(ev)));
                                let fresh: Vec<Expr> = Vec::new();
                                assert(exprs_view(fresh@) =~= Seq::empty());
                                list(tokens, pos + 2, more, fresh, Some(new_width))
                            } else {
                                (Err(Error::Syntax), 0)
                            }
                        },
                        Some(TokenKind::CloseBracket) => {
                            if width.is_some() {
                                if fits {
                                    let mut more = rows;
                                    let ghost rows_before = rows_view(more@);
                                    more.push(longer);
                                    assert(rows_view(more@) =~= rows_before.push(
                                        before.push(ev),
                                    ));
                                    (Ok(Expr::Matrix(more)), pos + 1)
                                } else {
                                    (Err(Error::Syntax), 0)
                                }
                            } else {
                                (Ok(Expr::Tuple(longer)), pos + 1)
                            }
                        },
                        _ => (Err(Error::Syntax), 0),
                    }
                },
            }
        },
    }
}

#[verifier::rlimit(100)]
fn set(tokens: &Vec<Token>, i: usize, items: Vec<Expr>) -> (r: (Result<Expr, Error>, usize))
    ensures
        agrees(
            r,
            parse_set(tokens_view(tokens@), i as nat, exprs_view(items@)),
            tokens@.len(),
        ),
    decreases tokens.len() - i, 21nat,
{
    match kind_of(tokens, i) {
        None => (Err(Error::Syntax), 0),
        Some(TokenKind::CloseBrace) => (Ok(Expr::SetLiteral(items)), i),
        Some(_) => {
            let (item, pos) = expression(tokens, i);
            match item {
                Err(err) => (Err(err), 0),
                Ok(e) => {
                    let mut more = items;
                    let ghost before = exprs_view(more@);
                    let ghost ev = e@;
                    more.push(e);
                    assert(exprs_view(more@) =~= before.push(ev));
                    match kind_of(tokens, pos + 1) {
                        Some(TokenKind::Comma) => {
                            if pos + 2 > i {
                                set(tokens, pos + 2, more)
                            } else {
                                (Err(Error::Syntax), 0)
                            }
                        },
                        Some(TokenKind::CloseBrace) => (Ok(Expr::SetLiteral(more)), pos + 1),
                        _ => (Err(Error::Syntax), 0),
                    }
                },
            }
        },
    }
}

#[verifier::rlimit(100)]
fn arguments(tokens: &Vec<Token>, i: usize) -> (r: (Result<Vec<Option<Expr>>, Error>, usize))
    requires
        i < tokens.len(),
    ensures
        args_agree(r, parse_args(tokens_view(tokens@), i as nat), tokens@.len()),
    decreases tokens.len() - i, 21nat,
{
    match kind_of(tokens, i + 1) {
        Some(TokenKind::Comma) => {
            let (rest, pos) = arguments(tokens, i + 1);
            match rest {
                Ok(mut args) => {
                    let ghost before = opt_exprs_view(args@);
                    args.insert(0, None);
                    assert(opt_exprs_view(args@) =~= seq![None] + before);
                    (Ok(args), pos)
                },
                Err(err) => (Err(err), 0),
            }
        },
        Some(TokenKind::CloseParen) => {
            let args: Vec<Option<Expr>> = Vec::new();
            assert(opt_exprs_view(args@) =~= Seq::empty());
            (Ok(args), i)
        },
        Some(_) => {
            let (arg, pos) = expression(tokens, i + 1);
            match arg {
                Err(err) => (Err(err), 0),
                Ok(e) => {
                    if next_is(tokens, pos, &TokenKind::Comma) {
                        if pos + 1 > i {
                            let (rest, end) = arguments(tokens, pos + 1);
                            match rest {
                                Ok(mut args) => {
                                    let ghost before = opt_exprs_view(args@);
                                    let ghost ev = e@;
                                    args.insert(0, Some(e));
                                    assert(opt_exprs_view(args@) =~= seq![Some(ev)] + before);
                                    (Ok(args), end)
                                },
                                Err(err) => (Err(err), 0),
                            }
                        } else {
                            (Err(Error::Syntax), 0)
                        }
                    } else {
                        let mut args: Vec<Option<Expr>> = Vec::new();
                        let ghost ev = e@;
                        args.push(Some(e));
                        assert(opt_exprs_view(args@) =~= seq![Some(ev)]);
                        (Ok(args), pos)
                    }
                },
            }
        },
        None => (Err(Error::Syntax), 0),
    }
}

#[verifier::rlimit(100)]
fn finish(tokens: &Vec<Token>, callee: Expr, i: usize) -> (r: (Result<Expr, Error>, usize))
    requires
        i < tokens.len(),
    ensures
        agrees(r, finish_call(tokens_view(tokens@), callee@, i as nat), tokens@.len()),
    decreases tokens.len() - i, 22nat,
{
    let (read, pos) = arguments(tokens, i);
    match read {
        Err(err) => (Err(err), 0),
        Ok(args) => {
            if next_is(tokens, pos, &TokenKind::CloseParen) {
                let call = call_of(callee, args);
                if next_is(tokens, pos + 1, &TokenKind::OpenParen) && pos + 2 > i {
                    finish(tokens, call, pos + 2)
                } else {
                    (Ok(call), pos + 1)
                }
            } else {
                (Err(Error::Syntax), 0)
            }
        },
    }
}

#[verifier::rlimit(100)]
fn call(tokens: &Vec<Token>, i: usize) -> (r: (Result<Expr, Error>, usize))
    ensures
        agrees(r, parse_call(tokens_view(tokens@), i as nat), tokens@.len()),
    decreases tokens.len() - i, 1nat,
{
    let (first, pos) = primary(tokens, i);
    match first {
        Err(err) => (Err(err), 0),
        Ok(e) => {
            if next_is(tokens, pos, &TokenKind::OpenParen) && pos + 1 > i {
                finish(tokens, e, pos + 1)
            } else {
                (Ok(e), pos)
            }
        },
    }
}

#[verifier::rlimit(100)]
fn power(tokens: &Vec<Token>, i: usize) -> (r: (Result<Expr, Error>, usize))
    ensures
        agrees(r, parse_power(tokens_view(tokens@), i as nat), tokens@.len()),
    decreases tokens.len() - i, 2nat,
{
    let (base, pos) = call(tokens, i);
    match base {
        Err(err) => (Err(err), 0),
        Ok(e) => {
            if next_is(tokens, pos, &TokenKind::Caret) && pos + 2 > i {
                let (exponent, end) = unary(tokens, pos + 2);
                match exponent {
                    Err(err) => (Err(err), 0),
                    Ok(x) => (Ok(binary_of(e, tokens[pos + 1].clone(), x)), end),
                }
            } else {
                (Ok(e), pos)
            }
        },
    }
}

#[verifier::rlimit(100)]
fn unary(tokens: &Vec<Token>, i: usize) -> (r: (Result<Expr, Error>, usize))
    ensures
        agrees(r, parse_unary(tokens_view(tokens@), i as nat), tokens@.len()),
    decreases tokens.len() - i, 3nat,
{
    match kind_of(tokens, i) {
        Some(TokenKind::Bang) | Some(TokenKind::Minus) | Some(TokenKind::Plus) => {
            let (operand, end) = unary(tokens, i + 1);
            match operand {
                Err(err) => (Err(err), 0),
                Ok(e) => (Ok(unary_of(tokens[i].clone(), e)), end),
            }
        },
        _ => power(tokens, i),
    }
}

#[verifier::rlimit(100)]
fn level(tokens: &Vec<Token>, i: usize, depth: u8) -> (r: (Result<Expr, Error>, usize))
    ensures
        agrees(r, parse_level(tokens_view(tokens@), i as nat, depth as nat), tokens@.len()),
    decreases tokens.len() - i, 4 + 2 * depth,
{
    if depth == 0 {
        unary(tokens, i)
    } else {
        let (left, pos) = level(tokens, i, depth - 1);
        match left {
            Err(err) => (Err(err), 0),
            Ok(e) => {
                if i <= pos {
                    level_rest(tokens, e, pos, depth)
                } else {
                    (Err(Error::Syntax), 0)
                }
            },
        }
    }
}

#[verifier::rlimit(100)]
fn level_rest(tokens: &Vec<Token>, left: Expr, pos: usize, depth: u8) -> (r: (
    Result<Expr, Error>,
    usize,
))
    requires
        pos < tokens.len(),
    ensures
        agrees(
            r,
            parse_level_rest(tokens_view(tokens@), left@, pos as nat, depth as nat),
            tokens@.len(),
        ),
    decreases tokens.len() - pos, 3 + 2 * depth,
{
    match kind_of(tokens, pos + 1) {
        Some(k) => {
            if is_level_op(depth, k) && depth > 0 {
                let (right, end) = level(tokens, pos + 2, depth - 1);
                match right {
                    Err(err) => (Err(err), 0),
                    Ok(r) => {
                        if pos < end {
                            level_rest(
                                tokens,
                                binary_of(left, tokens[pos + 1].clone(), r),
                                end,
                                depth,
                            )
                        } else {
                            (Err(Error::Syntax), 0)
                        }
                    },
                }
            } else {
                (Ok(left), pos)
            }
        },
        None => (Ok(left), pos),
    }
}

#[verifier::rlimit(100)]
fn typed(tokens: &Vec<Token>, i: usize) -> (r: (Result<Expr, Error>, usize))
    ensures
        agrees(r, parse_type(tokens_view(tokens@), i as nat), tokens@.len()),
    decreases tokens.len() - i, 19nat,
{
    let (value, pos) = level(tokens, i, 7);
    match value {
        Err(err) => (Err(err), 0),
        Ok(e) => {
            if next_is(tokens, pos, &TokenKind::Colon) && pos + 2 > i {
                let (ty, end) = level(tokens, pos + 2, 7);
                match ty {
                    Err(err) => (Err(err), 0),
                    Ok(t) => {
                        if next_is(tokens, end, &TokenKind::SmallArrow) && end + 2 > i {
                            let (result, last) = level(tokens, end + 2, 7);
                            match result {
                                Err(err) => (Err(err), 0),
                                Ok(r) => {
                                    let mut types: Vec<Expr> = Vec::new();
                                    let ghost tv = t@;
                                    types.push(t);
                                    assert(exprs_view(types@) =~= seq![tv]);
                                    (Ok(func_type_of(e, types, r)), last)
                                },
                            }
                        } else {
                            (Ok(type_expr_of(e, t)), end)
                        }
                    },
                }
            } else {
                (Ok(e), pos)
            }
        },
    }
}

#[verifier::rlimit(100)]
fn expression(tokens: &Vec<Token>, i: usize) -> (r: (Result<Expr, Error>, usize))
    ensures
        agrees(r, parse_expr(tokens_view(tokens@), i as nat), tokens@.len()),
    decreases tokens.len() - i, 20nat,
{
    let (left, pos) = typed(tokens, i);
    match left {
        Err(err) => (Err(err), 0),
        Ok(e) => {
            if next_is(tokens, pos, &TokenKind::Eq) && pos + 2 > i {
                let (right, end) = expression(tokens, pos + 2);
                match right {
                    Err(err) => (Err(err), 0),
                    Ok(r) => (assign_to(e, r), end),
                }
            } else {
                (Ok(e), pos)
            }
        },
    }
}

#[verifier::rlimit(100)]
fn statement(tokens: &Vec<Token>, i: usize) -> (r: (Result<Stmt, Error>, usize))
    ensures
        stmt_agrees(r, parse_stmt(tokens_view(tokens@), i as nat), tokens@.len()),
{
    let (e, pos) = expression(tokens, i);
    match e {
        Err(err) => (Err(err), 0),
        Ok(expr) => {
            let line_ends = next_is(tokens, pos, &TokenKind::EOL);
            let after_line = if line_ends {
                pos + 1
            } else {
                pos
            };
            let semicolon = next_is(tokens, after_line, &TokenKind::Semicolon);
            let last = if semicolon {
                after_line + 1
            } else {
                after_line
            };
            if line_ends || semicolon {
                (Ok(Stmt::ExprStmt(expr, line_ends)), last)
            } else {
                (Err(Error::Syntax), 0)
            }
        },
    }
}

/// A parser over a sequence of tokens.
pub struct Parser<'t> {
    tokens: &'t Vec<Token>,
    i: usize,
}

impl<'t> Parser<'t> {
    /// The tokens that the parser reads.
    pub closed spec fn tokens(&self) -> Seq<TokenView> {
        tokens_view(self.tokens@)
    }

    /// The place of the token that the parser stands at.
    pub closed spec fn position(&self) -> nat {
        self.i as nat
    }

    /// A parser at the first of the tokens.
    pub fn new(tokens: &'t Vec<Token>) -> (r: Self)
        ensures
            r.tokens() == tokens_view(tokens@),
            r.position() == 0,
    {
        Parser { tokens, i: 0 }
    }

    /// Reads the statements up to the end of the file.
    pub fn parse(&mut self) -> (r: Result<Ast, Error>)
        ensures
            final(self).tokens() == old(self).tokens(),
            match r {
                Ok(ast) => parse_program(old(self).tokens(), old(self).position(), Seq::empty())
                    == Ok::<Seq<StmtView>, Error>(ast@),
                Err(err) => parse_program(old(self).tokens(), old(self).position(), Seq::empty())
                    == Err::<Seq<StmtView>, Error>(err),
            },
    {
        let mut ast = Ast::new();
        loop
            invariant
                self.tokens == old(self).tokens,
                parse_program(old(self).tokens(), old(self).position(), Seq::empty())
                    == parse_program(self.tokens(), self.position(), ast@),
            decreases self.tokens.len() - self.i,
        {
            match kind_of(self.tokens, self.i) {
                None => {
                    return Err(Error::Syntax);
                },
                Some(TokenKind::EOF) => {
                    return Ok(ast);
                },
                Some(TokenKind::EOL) | Some(TokenKind::Semicolon) => {
                    self.i += 1;
                },
                Some(_) => {
                    let (s, pos) = statement(self.tokens, self.i);
                    match s {
                        Err(err) => {
                            return Err(err);
                        },
                        Ok(stmt) => {
                            if pos + 1 > self.i {
                                ast.push_stmt(stmt);
                                self.i = pos + 1;
                            } else {
                                return Err(Error::Syntax);
                            }
                        },
                    }
                },
            }
        }
    }
}

} // verus!
