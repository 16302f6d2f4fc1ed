//! The grammar of the language: what a sequence of tokens means as
//! statements.
//!
//! Every function here reads from a place in the sequence and says what it
//! read and at which token the reading ended. An expression ends at its last
//! token; what follows is looked at one token ahead.

use crate::ast::{ExprView, StmtView};
use crate::error::Error;
use crate::number::{decimal_value, fraction, is_decimal, ComplexView, Ratio};
use crate::token::{TokenKindView, TokenView};
use crate::value::ValView;
use vstd::arithmetic::power::pow;
use vstd::prelude::*;

verus! {

/// An expression read from tokens, and the place of its last token.
pub ghost struct Parsed {
    pub result: Result<ExprView, Error>,
    pub pos: nat,
}

/// The arguments of a call read from tokens, and the place where the reading
/// ended.
pub ghost struct ParsedArgs {
    pub result: Result<Seq<Option<ExprView>>, Error>,
    pub pos: nat,
}

/// A statement read from tokens, and the place of its last token.
pub ghost struct ParsedStmt {
    pub result: Result<StmtView, Error>,
    pub pos: nat,
}

pub open spec fn failed(err: Error) -> Parsed {
    Parsed { result: Err(err), pos: 0 }
}

/// The kind of the token at place `i`, if there is one.
pub open spec fn kind_at(tokens: Seq<TokenView>, i: nat) -> Option<TokenKindView> {
    if i < tokens.len() {
        Some(tokens[i as int].kind)
    } else {
        None
    }
}

/// The words that the language keeps for later use.
pub open spec fn is_keyword(word: Seq<char>) -> bool {
    word == "do"@ || word == "end"@ || word == "data"@ || word == "class"@ || word == "object"@
        || word == "import"@ || word == "as"@ || word == "proc"@
}

/// What an identifier stands for: `i` for the imaginary unit, `true` and
/// `false` for the booleans, any other word for a symbol. Keywords have no
/// meaning yet.
pub open spec fn parse_ident(word: Seq<char>) -> Result<ExprView, Error> {
    if word == "i"@ {
        Ok(
            ExprView::Literal(
                ValView::Complex(
                    ComplexView { re: Ratio { num: 0, den: 1 }, im: Ratio { num: 1, den: 1 } },
                ),
            ),
        )
    } else if word == "true"@ {
        Ok(ExprView::Literal(ValView::Boolean(true)))
    } else if word == "false"@ {
        Ok(ExprView::Literal(ValView::Boolean(false)))
    } else if is_keyword(word) {
        Err(Error::NotYetImplemented)
    } else {
        Ok(ExprView::Symbol(word))
    }
}

/// A number with the imaginary unit behind it.
pub open spec fn imaginary(v: ValView) -> ValView {
    match v {
        ValView::Integer(n) => ValView::Complex(
            ComplexView { re: Ratio { num: 0, den: 1 }, im: Ratio { num: n, den: 1 } },
        ),
        ValView::Rational(q) => ValView::Complex(
            ComplexView { re: Ratio { num: 0, den: 1 }, im: q },
        ),
        _ => v,
    }
}

/// A number, which starts with the number token `whole` at place `i`:
/// digits, then optionally a dot and more digits, then optionally `i`. With
/// digits behind the dot the number is the fraction that the decimal
/// notation writes; more than 2^32 - 1 digits behind the dot are refused.
pub open spec fn parse_number(tokens: Seq<TokenView>, i: nat, whole: Seq<char>) -> Parsed {
    let read = if kind_at(tokens, i + 1) == Some(TokenKindView::Dot) {
        match kind_at(tokens, i + 2) {
            Some(TokenKindView::Number(part)) => if is_decimal(whole + part) && part.len()
                <= 0xffff_ffff {
                Ok(
                    (
                        ValView::Rational(
                            fraction(
                                decimal_value(whole + part) as int,
                                pow(10, part.len()),
                            ),
                        ),
                        i + 2,
                    ),
                )
            } else {
                Err(Error::Syntax)
            },
            _ => if is_decimal(whole) {
                Ok((ValView::Integer(decimal_value(whole) as int), i + 1))
            } else {
                Err(Error::Syntax)
            },
        }
    } else if is_decimal(whole) {
        Ok((ValView::Integer(decimal_value(whole) as int), i))
    } else {
        Err(Error::Syntax)
    };
    match read {
        Ok((v, pos)) => if kind_at(tokens, (pos + 1) as nat) == Some(TokenKindView::Ident("i"@)) {
            Parsed { result: Ok(ExprView::Literal(imaginary(v))), pos: (pos + 1) as nat }
        } else {
            Parsed { result: Ok(ExprView::Literal(v)), pos: pos as nat }
        },
        Err(err) => failed(err),
    }
}

/// Whether `k` is an operator of the given level of binding, 1 binding
/// tightest: `/ *`, then `+ -`, then `& | \ ~`, then `=: <: >: <=: >=:`, then
/// `== < > <= >=`, then `&&`, then `||`.
pub open spec fn level_op(level: nat, k: TokenKindView) -> bool {
    if level == 1 {
        k == TokenKindView::Slash || k == TokenKindView::Star
    } else if level == 2 {
        k == TokenKindView::Plus || k == TokenKindView::Minus
    } else if level == 3 {
        k == TokenKindView::Amp || k == TokenKindView::Bar || k == TokenKindView::BackSlash || k
            == TokenKindView::Tilde
    } else if level == 4 {
        k == TokenKindView::EqColon || k == TokenKindView::LessColon || k
            == TokenKindView::GreaterColon || k == TokenKindView::LessEqColon || k
            == TokenKindView::GreaterEqColon
    } else if level == 5 {
        k == TokenKindView::DblEq || k == TokenKindView::Less || k == TokenKindView::Greater || k
            == TokenKindView::LessEq || k == TokenKindView::GreaterEq
    } else if level == 6 {
        k == TokenKindView::DblAmp
    } else if level == 7 {
        k == TokenKindView::DblBar
    } else {
        false
    }
}

/// The loosest level of binding.
pub open spec fn top_level() -> nat {
    7
}

/// The names of the symbols from `start` on, where the arguments are all
/// symbols.
pub open spec fn param_names(args: Seq<Option<ExprView>>, start: nat) -> Option<Seq<Seq<char>>>
    decreases args.len() - start,
{
    if start >= args.len() {
        Some(Seq::empty())
    } else {
        match args[start as int] {
            Some(ExprView::Symbol(name)) => match param_names(args, start + 1) {
                Some(names) => Some(seq![name] + names),
                None => None,
            },
            _ => None,
        }
    }
}

/// `left = right` by the shape of `left`: a name is assigned; a call of a
/// name on symbols defines a function; a name with a type is assigned under
/// that type. Nothing else can be assigned to.
pub open spec fn assignment(left: ExprView, right: ExprView) -> Result<ExprView, Error> {
    match left {
        ExprView::Call(callee, args) => match *callee {
            ExprView::Symbol(name) => match param_names(args, 0) {
                Some(names) => Ok(
                    ExprView::Assign(name, Box::new(ExprView::Func(names, Box::new(right)))),
                ),
                None => Err(Error::Syntax),
            },
            _ => Err(Error::Syntax),
        },
        ExprView::Symbol(name) => Ok(ExprView::Assign(name, Box::new(right))),
        ExprView::TypeExpr(value, ty) => match *value {
            ExprView::Symbol(name) => Ok(ExprView::TypedAssign(name, ty, Box::new(right))),
            _ => Err(Error::Syntax),
        },
        _ => Err(Error::Syntax),
    }
}

/// What stands at place `i`: a name, a text, a number, an expression in
/// parentheses, a list in brackets or a set in braces.
pub open spec fn parse_primary(tokens: Seq<TokenView>, i: nat) -> Parsed
    decreases tokens.len() - i, 0nat,
{
    match kind_at(tokens, i) {
        Some(TokenKindView::Ident(word)) => Parsed { result: parse_ident(word), pos: i },
        Some(TokenKindView::String(text)) => Parsed {
            result: Ok(ExprView::Literal(ValView::Text(text))),
            pos: i,
        },
        Some(TokenKindView::Char(text)) => Parsed {
            result: Ok(ExprView::Literal(ValView::Text(text))),
            pos: i,
        },
        Some(TokenKindView::Number(whole)) => parse_number(tokens, i, whole),
        Some(TokenKindView::OpenParen) => {
            let inner = parse_expr(tokens, i + 1);
            match inner.result {
                Ok(e) => if kind_at(tokens, inner.pos + 1) == Some(TokenKindView::CloseParen) {
                    Parsed { result: Ok(ExprView::Group(Box::new(e))), pos: inner.pos + 1 }
                } else {
                    failed(Error::Syntax)
                },
                Err(_) => inner,
            }
        },
        Some(TokenKindView::OpenBracket) => parse_list(
            tokens,
            i + 1,
            Seq::empty(),
            Seq::empty(),
            None,
        ),
        Some(TokenKindView::OpenBrace) => parse_set(tokens, i + 1, Seq::empty()),
        _ => failed(Error::Syntax),
    }
}

/// The rest of a list from place `i` on, behind the rows and the elements
/// read so far. Elements are parted by commas; a semicolon ends a row, which
/// makes the list a matrix, all of whose rows must be as long as the first.
pub open spec fn parse_list(
    tokens: Seq<TokenView>,
    i: nat,
    rows: Seq<Seq<ExprView>>,
    row: Seq<ExprView>,
    width: Option<nat>,
) -> Parsed
    decreases tokens.len() - i, 21nat,
{
    match kind_at(tokens, i) {
        None => failed(Error::Syntax),
        Some(TokenKindView::CloseBracket) => Parsed {
            result: Ok(
                if width is Some {
                    ExprView::Matrix(rows)
                } else {
                    ExprView::Tuple(row)
                },
            ),
            pos: i,
        },
        Some(_) => {
            let item = parse_expr(tokens, i);
            match item.result {
                Err(_) => item,
                Ok(e) => {
                    let longer = row.push(e);
                    let fits = match width {
                        Some(w) => w == longer.len(),
                        None => true,
                    };
                    match kind_at(tokens, item.pos + 1) {
                        Some(TokenKindView::Comma) => if item.pos + 2 > i {
                            parse_list(tokens, item.pos + 2, rows, longer, width)
                        } else {
                            failed(Error::Syntax)
                        },
                        Some(TokenKindView::Semicolon) => if fits && item.pos + 2 > i {
                            parse_list(
                                tokens,
                                item.pos + 2,
                                rows.push(longer),
                                Seq::empty(),
                                Some(
                                    match width {
                                        Some(w) => w,
                                        None => longer.len(),
                                    },
                                ),
                            )
                        } else {
                            failed(Error::Syntax)
                        },
                        Some(TokenKindView::CloseBracket) => if width is Some {
                            if fits {
                                Parsed {
                                    result: Ok(ExprView::Matrix(rows.push(longer))),
                                    pos: item.pos + 1,
                                }
                            } else {
                                failed(Error::Syntax)
                            }
                        } else {
                            Parsed { result: Ok(ExprView::Tuple(longer)), pos: item.pos + 1 }
                        },
                        _ => failed(Error::Syntax),
                    }
                },
            }
        },
    }
}

/// The rest of a set from place `i` on, behind the elements read so far.
pub open spec fn parse_set(tokens: Seq<TokenView>, i: nat, items: Seq<ExprView>) -> Parsed
    decreases tokens.len() - i, 21nat,
{
    match kind_at(tokens, i) {
        None => failed(Error::Syntax),
        Some(TokenKindView::CloseBrace) => Parsed { result: Ok(ExprView::SetLiteral(items)), pos: i },
        Some(_) => {
            let item = parse_expr(tokens, i);
            match item.result {
                Err(_) => item,
                Ok(e) => match kind_at(tokens, item.pos + 1) {
                    Some(TokenKindView::Comma) => if item.pos + 2 > i {
                        parse_set(tokens, item.pos + 2, items.push(e))
                    } else {
                        failed(Error::Syntax)
                    },
                    Some(TokenKindView::CloseBrace) => Parsed {
                        result: Ok(ExprView::SetLiteral(items.push(e))),
                        pos: item.pos + 1,
                    },
                    _ => failed(Error::Syntax),
                },
            }
        },
    }
}

/// The arguments of a call, read behind the token at place `i`, which is the
/// opening parenthesis or a comma. A comma right away leaves an argument
/// out.
pub open spec fn parse_args(tokens: Seq<TokenView>, i: nat) -> ParsedArgs
    decreases tokens.len() - i, 21nat,
{
    match kind_at(tokens, i + 1) {
        Some(TokenKindView::Comma) => {
            let rest = parse_args(tokens, i + 1);
            match rest.result {
                Ok(args) => ParsedArgs { result: Ok(seq![None] + args), pos: rest.pos },
                Err(_) => rest,
            }
        },
        Some(TokenKindView::CloseParen) => ParsedArgs { result: Ok(Seq::empty()), pos: i },
        Some(_) => {
            let arg = parse_expr(tokens, i + 1);
            match arg.result {
                Err(err) => ParsedArgs { result: Err(err), pos: 0 },
                Ok(e) => if kind_at(tokens, arg.pos + 1) == Some(TokenKindView::Comma) {
                    if arg.pos + 1 > i {
                        let rest = parse_args(tokens, arg.pos + 1);
                        match rest.result {
                            Ok(args) => ParsedArgs {
                                result: Ok(seq![Some(e)] + args),
                                pos: rest.pos,
                            },
                            Err(_) => rest,
                        }
                    } else {
                        ParsedArgs { result: Err(Error::Syntax), pos: 0 }
                    }
                } else {
                    ParsedArgs { result: Ok(seq![Some(e)]), pos: arg.pos }
                },
            }
        },
        None => ParsedArgs { result: Err(Error::Syntax), pos: 0 },
    }
}

/// A call of `callee`, whose opening parenthesis is at place `i`, and the
/// calls of its result that follow.
pub open spec fn finish_call(tokens: Seq<TokenView>, callee: ExprView, i: nat) -> Parsed
    decreases tokens.len() - i, 22nat,
{
    let read = parse_args(tokens, i);
    match read.result {
        Err(err) => failed(err),
        Ok(args) => if kind_at(tokens, read.pos + 1) == Some(TokenKindView::CloseParen) {
            let call = ExprView::Call(Box::new(callee), args);
            if kind_at(tokens, read.pos + 2) == Some(TokenKindView::OpenParen) && read.pos + 2 > i {
                finish_call(tokens, call, read.pos + 2)
            } else {
                Parsed { result: Ok(call), pos: read.pos + 1 }
            }
        } else {
            failed(Error::Syntax)
        },
    }
}

/// What stands at place `i`, with the calls made of it.
pub open spec fn parse_call(tokens: Seq<TokenView>, i: nat) -> Parsed
    decreases tokens.len() - i, 1nat,
{
    let first = parse_primary(tokens, i);
    match first.result {
        Err(_) => first,
        Ok(e) => if kind_at(tokens, first.pos + 1) == Some(TokenKindView::OpenParen) && first.pos
            + 1 > i {
            finish_call(tokens, e, first.pos + 1)
        } else {
            first
        },
    }
}

/// A power: a base and, behind `^`, its exponent, which may bear a sign.
pub open spec fn parse_power(tokens: Seq<TokenView>, i: nat) -> Parsed
    decreases tokens.len() - i, 2nat,
{
    let base = parse_call(tokens, i);
    match base.result {
        Err(_) => base,
        Ok(e) => if kind_at(tokens, base.pos + 1) == Some(TokenKindView::Caret) && base.pos + 2
            > i {
            let exponent = parse_unary(tokens, base.pos + 2);
            match exponent.result {
                Err(_) => exponent,
                Ok(x) => Parsed {
                    result: Ok(
                        ExprView::Binary(Box::new(e), tokens[base.pos as int + 1], Box::new(x)),
                    ),
                    pos: exponent.pos,
                },
            }
        } else {
            base
        },
    }
}

/// An expression under the signs `!`, `-` and `+` before it.
pub open spec fn parse_unary(tokens: Seq<TokenView>, i: nat) -> Parsed
    decreases tokens.len() - i, 3nat,
{
    match kind_at(tokens, i) {
        Some(TokenKindView::Bang) | Some(TokenKindView::Minus) | Some(TokenKindView::Plus) => {
            let operand = parse_unary(tokens, i + 1);
            match operand.result {
                Err(_) => operand,
                Ok(e) => Parsed {
                    result: Ok(ExprView::Unary(tokens[i as int], Box::new(e))),
                    pos: operand.pos,
                },
            }
        },
        _ => parse_power(tokens, i),
    }
}

/// An expression of the operators up to the given level of binding, which
/// group to the left.
pub open spec fn parse_level(tokens: Seq<TokenView>, i: nat, level: nat) -> Parsed
    decreases tokens.len() - i, 4 + 2 * level,
{
    if level == 0 {
        parse_unary(tokens, i)
    } else {
        let left = parse_level(tokens, i, (level - 1) as nat);
        match left.result {
            Err(_) => left,
            Ok(e) => if i <= left.pos < tokens.len() {
                parse_level_rest(tokens, e, left.pos, level)
            } else {
                failed(Error::Syntax)
            },
        }
    }
}

/// The operators of the given level and their right operands that follow
/// `left`, whose last token is at place `pos`.
pub open spec fn parse_level_rest(
    tokens: Seq<TokenView>,
    left: ExprView,
    pos: nat,
    level: nat,
) -> Parsed
    decreases tokens.len() - pos, 3 + 2 * level,
{
    match kind_at(tokens, pos + 1) {
        Some(k) => if level_op(level, k) && level > 0 {
            let right = parse_level(tokens, pos + 2, (level - 1) as nat);
            match right.result {
                Err(_) => right,
                Ok(r) => if pos < right.pos < tokens.len() {
                    parse_level_rest(
                        tokens,
                        ExprView::Binary(Box::new(left), tokens[pos as int + 1], Box::new(r)),
                        right.pos,
                        level,
                    )
                } else {
                    failed(Error::Syntax)
                },
            }
        } else {
            Parsed { result: Ok(left), pos }
        },
        None => Parsed { result: Ok(left), pos },
    }
}

/// An expression and, behind `:`, its type, which behind `->` is the type of
/// a function.
pub open spec fn parse_type(tokens: Seq<TokenView>, i: nat) -> Parsed
    decreases tokens.len() - i, 19nat,
{
    let value = parse_level(tokens, i, top_level());
    match value.result {
        Err(_) => value,
        Ok(e) => if kind_at(tokens, value.pos + 1) == Some(TokenKindView::Colon) && value.pos + 2
            > i {
            let ty = parse_level(tokens, value.pos + 2, top_level());
            match ty.result {
                Err(_) => ty,
                Ok(t) => if kind_at(tokens, ty.pos + 1) == Some(TokenKindView::SmallArrow)
                    && ty.pos + 2 > i {
                    let result = parse_level(tokens, ty.pos + 2, top_level());
                    match result.result {
                        Err(_) => result,
                        Ok(r) => Parsed {
                            result: Ok(
                                ExprView::FuncTypeExpr(Box::new(e), seq![t], Box::new(r)),
                            ),
                            pos: result.pos,
                        },
                    }
                } else {
                    Parsed {
                        result: Ok(ExprView::TypeExpr(Box::new(e), Box::new(t))),
                        pos: ty.pos,
                    }
                },
            }
        } else {
            value
        },
    }
}

/// An expression: a typed expression and, behind `=`, what is assigned to
/// it.
pub open spec fn parse_expr(tokens: Seq<TokenView>, i: nat) -> Parsed
    decreases tokens.len() - i, 20nat,
{
    let left = parse_type(tokens, i);
    match left.result {
        Err(_) => left,
        Ok(e) => if kind_at(tokens, left.pos + 1) == Some(TokenKindView::Eq) && left.pos + 2 > i {
            let right = parse_expr(tokens, left.pos + 2);
            match right.result {
                Err(_) => right,
                Ok(r) => Parsed { result: assignment(e, r), pos: right.pos },
            }
        } else {
            left
        },
    }
}

/// A statement: an expression that the end of the line or a semicolon
/// follows. An assignment before the end of a line is to be shown.
pub open spec fn parse_stmt(tokens: Seq<TokenView>, i: nat) -> ParsedStmt {
    let e = parse_expr(tokens, i);
    match e.result {
        Err(err) => ParsedStmt { result: Err(err), pos: 0 },
        Ok(expr) => {
            let line_ends = kind_at(tokens, e.pos + 1) == Some(TokenKindView::EOL);
            let after_line = if line_ends {
                e.pos + 1
            } else {
                e.pos
            };
            let semicolon = kind_at(tokens, after_line + 1) == Some(TokenKindView::Semicolon);
            let last = if semicolon {
                after_line + 1
            } else {
                after_line
            };
            if line_ends || semicolon {
                ParsedStmt { result: Ok(StmtView::ExprStmt(expr, line_ends)), pos: last }
            } else {
                ParsedStmt { result: Err(Error::Syntax), pos: 0 }
            }
        },
    }
}

/// The statements from place `i` on up to the end of the file, behind those
/// read so far. Empty lines and stray semicolons are passed over.
pub open spec fn parse_program(tokens: Seq<TokenView>, i: nat, stmts: Seq<StmtView>) -> Result<
    Seq<StmtView>,
    Error,
>
    decreases tokens.len() - i,
{
    match kind_at(tokens, i) {
        None => Err(Error::Syntax),
        Some(TokenKindView::EOF) => Ok(stmts),
        Some(TokenKindView::EOL) | Some(TokenKindView::Semicolon) => parse_program(
            tokens,
            i + 1,
            stmts,
        ),
        Some(_) => {
            let s = parse_stmt(tokens, i);
            match s.result {
                Err(err) => Err(err),
                Ok(stmt) => if s.pos + 1 > i {
                    parse_program(tokens, s.pos + 1, stmts.push(stmt))
                } else {
                    Err(Error::Syntax)
                },
            }
        },
    }
}


/// What was read at a place ends at or behind that place, and within the
/// tokens. With the laws below this shows that the refusals above of a reading
/// that went backwards never come to pass.
pub proof fn lemma_primary_advances(tokens: Seq<TokenView>, i: nat)
    requires
        parse_primary(tokens, i).result is Ok,
    ensures
        i <= parse_primary(tokens, i).pos < tokens.len(),
    decreases tokens.len() - i, 0nat,
{
    match kind_at(tokens, i) {
        Some(TokenKindView::OpenParen) => {
            lemma_expr_advances(tokens, i + 1);
        },
        Some(TokenKindView::OpenBracket) => {
            lemma_list_advances(tokens, i + 1, Seq::empty(), Seq::empty(), None);
        },
        Some(TokenKindView::OpenBrace) => {
            lemma_set_advances(tokens, i + 1, Seq::empty());
        },
        _ => {},
    }
}

/// The rest of a list that was read ends at or behind the place where its
/// reading began, and within the tokens.
pub proof fn lemma_list_advances(
    tokens: Seq<TokenView>,
    i: nat,
    rows: Seq<Seq<ExprView>>,
    row: Seq<ExprView>,
    width: Option<nat>,
)
    requires
        parse_list(tokens, i, rows, row, width).result is Ok,
    ensures
        i <= parse_list(tokens, i, rows, row, width).pos < tokens.len(),
    decreases tokens.len() - i, 21nat,
{
    match kind_at(tokens, i) {
        None => {},
        Some(TokenKindView::CloseBracket) => {},
        Some(_) => {
            let item = parse_expr(tokens, i);
            lemma_expr_advances(tokens, i);
            let longer = row.push(item.result->Ok_0);
            match kind_at(tokens, item.pos + 1) {
                Some(TokenKindView::Comma) => {
                    lemma_list_advances(tokens, item.pos + 2, rows, longer, width);
                },
                Some(TokenKindView::Semicolon) => {
                    lemma_list_advances(
                        tokens,
                        item.pos + 2,
                        rows.push(longer),
                        Seq::empty(),
                        Some(
                            match width {
                                Some(w) => w,
                                None => longer.len(),
                            },
                        ),
                    );
                },
                _ => {},
            }
        },
    }
}

/// The rest of a set that was read ends at or behind the place where its
/// reading began, and within the tokens.
pub proof fn lemma_set_advances(tokens: Seq<TokenView>, i: nat, items: Seq<ExprView>)
    requires
        parse_set(tokens, i, items).result is Ok,
    ensures
        i <= parse_set(tokens, i, items).pos < tokens.len(),
    decreases tokens.len() - i, 21nat,
{
    match kind_at(tokens, i) {
        None => {},
        Some(TokenKindView::CloseBrace) => {},
        Some(_) => {
            let item = parse_expr(tokens, i);
            lemma_expr_advances(tokens, i);
            match kind_at(tokens, item.pos + 1) {
                Some(TokenKindView::Comma) => {
                    lemma_set_advances(tokens, item.pos + 2, items.push(item.result->Ok_0));
                },
                _ => {},
            }
        },
    }
}

/// The arguments that were read end at or behind the token before them, and
/// within the tokens.
pub proof fn lemma_args_advance(tokens: Seq<TokenView>, i: nat)
    requires
        parse_args(tokens, i).result is Ok,
    ensures
        i <= parse_args(tokens, i).pos < tokens.len(),
    decreases tokens.len() - i, 21nat,
{
    match kind_at(tokens, i + 1) {
        Some(TokenKindView::Comma) => {
            lemma_args_advance(tokens, i + 1);
        },
        Some(TokenKindView::CloseParen) => {},
        Some(_) => {
            let arg = parse_expr(tokens, i + 1);
            lemma_expr_advances(tokens, i + 1);
            if kind_at(tokens, arg.pos + 1) == Some(TokenKindView::Comma) {
                lemma_args_advance(tokens, arg.pos + 1);
            }
        },
        None => {},
    }
}

/// A call that was read ends at or behind its opening parenthesis, and within
/// the tokens.
pub proof fn lemma_finish_call_advances(tokens: Seq<TokenView>, callee: ExprView, i: nat)
    requires
        finish_call(tokens, callee, i).result is Ok,
    ensures
        i <= finish_call(tokens, callee, i).pos < tokens.len(),
    decreases tokens.len() - i, 22nat,
{
    let read = parse_args(tokens, i);
    lemma_args_advance(tokens, i);
    let call = ExprView::Call(Box::new(callee), read.result->Ok_0);
    if kind_at(tokens, read.pos + 2) == Some(TokenKindView::OpenParen) {
        lemma_finish_call_advances(tokens, call, read.pos + 2);
    }
}

/// What was read with its calls ends at or behind the place where its
/// reading began, and within the tokens.
pub proof fn lemma_call_advances(tokens: Seq<TokenView>, i: nat)
    requires
        parse_call(tokens, i).result is Ok,
    ensures
        i <= parse_call(tokens, i).pos < tokens.len(),
    decreases tokens.len() - i, 1nat,
{
    let first = parse_primary(tokens, i);
    lemma_primary_advances(tokens, i);
    if kind_at(tokens, first.pos + 1) == Some(TokenKindView::OpenParen) {
        lemma_finish_call_advances(tokens, first.result->Ok_0, first.pos + 1);
    }
}

/// A power that was read ends at or behind the place where its reading
/// began, and within the tokens.
pub proof fn lemma_power_advances(tokens: Seq<TokenView>, i: nat)
    requires
        parse_power(tokens, i).result is Ok,
    ensures
        i <= parse_power(tokens, i).pos < tokens.len(),
    decreases tokens.len() - i, 2nat,
{
    let base = parse_call(tokens, i);
    lemma_call_advances(tokens, i);
    if kind_at(tokens, base.pos + 1) == Some(TokenKindView::Caret) {
        lemma_unary_advances(tokens, base.pos + 2);
    }
}

/// An expression under signs that was read ends at or behind the place where
/// its reading began, and within the tokens.
pub proof fn lemma_unary_advances(tokens: Seq<TokenView>, i: nat)
    requires
        parse_unary(tokens, i).result is Ok,
    ensures
        i <= parse_unary(tokens, i).pos < tokens.len(),
    decreases tokens.len() - i, 3nat,
{
    match kind_at(tokens, i) {
        Some(TokenKindView::Bang) | Some(TokenKindView::Minus) | Some(TokenKindView::Plus) => {
            lemma_unary_advances(tokens, i + 1);
        },
        _ => {
            lemma_power_advances(tokens, i);
        },
    }
}

/// An expression of operators that was read ends at or behind the place
/// where its reading began, and within the tokens.
pub proof fn lemma_level_advances(tokens: Seq<TokenView>, i: nat, level: nat)
    requires
        parse_level(tokens, i, level).result is Ok,
    ensures
        i <= parse_level(tokens, i, level).pos < tokens.len(),
    decreases tokens.len() - i, 4 + 2 * level,
{
    if level == 0 {
        lemma_unary_advances(tokens, i);
    } else {
        let left = parse_level(tokens, i, (level - 1) as nat);
        lemma_level_advances(tokens, i, (level - 1) as nat);
        lemma_level_rest_advances(tokens, left.result->Ok_0, left.pos, level);
    }
}

/// The operators and operands that were read behind an expression end at or
/// behind its last token, and within the tokens.
pub proof fn lemma_level_rest_advances(
    tokens: Seq<TokenView>,
    left: ExprView,
    pos: nat,
    level: nat,
)
    requires
        pos < tokens.len(),
        parse_level_rest(tokens, left, pos, level).result is Ok,
    ensures
        pos <= parse_level_rest(tokens, left, pos, level).pos < tokens.len(),
    decreases tokens.len() - pos, 3 + 2 * level,
{
    match kind_at(tokens, pos + 1) {
        Some(k) => {
            if level_op(level, k) && level > 0 {
                let right = parse_level(tokens, pos + 2, (level - 1) as nat);
                lemma_level_advances(tokens, pos + 2, (level - 1) as nat);
                lemma_level_rest_advances(
                    tokens,
                    ExprView::Binary(
                        Box::new(left),
                        tokens[pos as int + 1],
                        Box::new(right.result->Ok_0),
                    ),
                    right.pos,
                    level,
                );
            }
        },
        None => {},
    }
}

/// A typed expression that was read ends at or behind the place where its
/// reading began, and within the tokens.
pub proof fn lemma_type_advances(tokens: Seq<TokenView>, i: nat)
    requires
        parse_type(tokens, i).result is Ok,
    ensures
        i <= parse_type(tokens, i).pos < tokens.len(),
    decreases tokens.len() - i, 19nat,
{
    let value = parse_level(tokens, i, top_level());
    lemma_level_advances(tokens, i, top_level());
    if kind_at(tokens, value.pos + 1) == Some(TokenKindView::Colon) {
        let ty = parse_level(tokens, value.pos + 2, top_level());
        lemma_level_advances(tokens, value.pos + 2, top_level());
        if kind_at(tokens, ty.pos + 1) == Some(TokenKindView::SmallArrow) {
            lemma_level_advances(tokens, ty.pos + 2, top_level());
        }
    }
}

/// An expression that was read ends at or behind the place where its reading
/// began, and within the tokens.
pub proof fn lemma_expr_advances(tokens: Seq<TokenView>, i: nat)
    requires
        parse_expr(tokens, i).result is Ok,
    ensures
        i <= parse_expr(tokens, i).pos < tokens.len(),
    decreases tokens.len() - i, 20nat,
{
    let left = parse_type(tokens, i);
    lemma_type_advances(tokens, i);
    if kind_at(tokens, left.pos + 1) == Some(TokenKindView::Eq) {
        lemma_expr_advances(tokens, left.pos + 2);
    }
}

} // verus!
