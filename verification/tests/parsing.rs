use mathscript::ast::{Ast, Expr, Stmt};
use mathscript::error::Error;
use mathscript::lexer::Lexer;
use mathscript::parser::Parser;
use mathscript::token::{Token, TokenKind};

fn parse(source: &str) -> Result<Ast, Error> {
    let lines: Vec<String> = source.lines().map(|l| l.to_string()).collect();
    let tokens = Lexer::new().lex(&lines).expect("scan");
    Parser::new(&tokens).parse()
}

fn shapes(source: &str) -> Vec<String> {
    let ast = parse(source).expect("parse");
    ast.stmts()
        .iter()
        .map(|s| match s {
            Stmt::ExprStmt(e, log) => format!("{}{}", shape(e), if *log { " !" } else { "" }),
        })
        .collect()
}

fn shape(e: &Expr) -> String {
    match e {
        Expr::Literal(v) => format!("lit({})", v.display()),
        Expr::Symbol(name) => name.clone(),
        Expr::Group(inner) => format!("group({})", shape(inner)),
        Expr::Unary(op, inner) => format!("({}{})", op.lexeme(), shape(inner)),
        Expr::Binary(l, op, r) => format!("({} {} {})", shape(l), op.lexeme(), shape(r)),
        Expr::Call(callee, args) => format!(
            "call({}; {})",
            shape(callee),
            args.iter()
                .map(|a| match a {
                    Some(e) => shape(e),
                    None => "_".to_string(),
                })
                .collect::<Vec<_>>()
                .join(", ")
        ),
        Expr::Assign(name, value) => format!("assign({}, {})", name, shape(value)),
        Expr::TypedAssign(name, ty, value) => format!("typed({}, {}, {})", name, shape(ty), shape(value)),
        Expr::Func(params, body) => format!("fn({}; {})", params.join(", "), shape(body)),
        Expr::Tuple(items) => format!("tuple({})", items.iter().map(shape).collect::<Vec<_>>().join(", ")),
        Expr::Matrix(rows) => format!(
            "matrix({})",
            rows.iter()
                .map(|r| r.iter().map(shape).collect::<Vec<_>>().join(", "))
                .collect::<Vec<_>>()
                .join("; ")
        ),
        Expr::SetLiteral(items) => format!("set({})", items.iter().map(shape).collect::<Vec<_>>().join(", ")),
        Expr::TypeExpr(value, ty) => format!("type({}, {})", shape(value), shape(ty)),
        Expr::FuncTypeExpr(f, params, r) => format!(
            "signature({}; {}; {})",
            shape(f),
            params.iter().map(shape).collect::<Vec<_>>().join(", "),
            shape(r)
        ),
    }
}

#[test]
fn operators_bind_by_level() {
    assert_eq!(shapes("1 + 2 * 3"), vec!["(lit(1) + (lit(2) * lit(3))) !"]);
    assert_eq!(shapes("1 - 2 - 3;"), vec!["((lit(1) - lit(2)) - lit(3))"]);
    assert_eq!(shapes("a || b && c == d;"), vec!["(a || (b && (c == d)))"]);
    assert_eq!(shapes("a & b + c;"), vec!["(a & (b + c))"]);
    assert_eq!(shapes("a <: b | c;"), vec!["(a <: (b | c))"]);
    assert_eq!(shapes("a < b =: c;"), vec!["(a < (b =: c))"]);
}

#[test]
fn powers_and_signs() {
    assert_eq!(shapes("-2^2;"), vec!["(-(lit(2) ^ lit(2)))"]);
    assert_eq!(shapes("2^-3;"), vec!["(lit(2) ^ (-lit(3)))"]);
    assert_eq!(shapes("2^3^4;"), vec!["(lit(2) ^ (lit(3) ^ lit(4)))"]);
    assert_eq!(shapes("!a;"), vec!["(!a)"]);
    assert_eq!(shapes("- + x;"), vec!["(-(+x))"]);
}

#[test]
fn numbers() {
    assert_eq!(shapes("12;"), vec!["lit(12)"]);
    assert_eq!(shapes("1.5;"), vec!["lit(3/2)"]);
    assert_eq!(shapes("0.125;"), vec!["lit(1/8)"]);
    assert_eq!(shapes("1_0.0_5;"), vec!["lit(1005/1000)".replace("1005/1000", "201/200")]);
    assert_eq!(shapes("2i;"), vec!["lit(0+2i)"]);
    assert_eq!(shapes("1.5i;"), vec!["lit(0+3/2i)"]);
    assert_eq!(shapes("i;"), vec!["lit(0+1i)"]);
    assert_eq!(shapes("true; false"), vec!["lit(true)", "lit(false) !"]);
    assert_eq!(shapes("\"a\"; 'b';"), vec!["lit(a)", "lit(b)"]);
}

#[test]
fn assignments() {
    assert_eq!(shapes("x = 1;"), vec!["assign(x, lit(1))"]);
    assert_eq!(shapes("x = y = 1;"), vec!["assign(x, assign(y, lit(1)))"]);
    assert_eq!(shapes("f(x, y) = x + y"), vec!["assign(f, fn(x, y; (x + y))) !"]);
    assert_eq!(shapes("f() = 1;"), vec!["assign(f, fn(; lit(1)))"]);
    assert_eq!(shapes("x : Nat = 1;"), vec!["typed(x, Nat, lit(1))"]);
    assert_eq!(shapes("x : Nat;"), vec!["type(x, Nat)"]);
    assert_eq!(shapes("(x) : Nat;"), vec!["type(group(x), Nat)"]);
}

#[test]
fn assignments_to_other_shapes_are_refused() {
    assert_eq!(parse("1 = 2;").err(), Some(Error::Syntax));
    assert_eq!(parse("f(1) = 2;").err(), Some(Error::Syntax));
    assert_eq!(parse("f(x, ) = 2;").is_ok(), true);
    assert_eq!(parse("f(, x) = 2;").err(), Some(Error::Syntax));
    assert_eq!(parse("g(x)(y) = 2;").err(), Some(Error::Syntax));
    assert_eq!(parse("(x) : Nat = 2;").err(), Some(Error::Syntax));
}

#[test]
fn calls() {
    assert_eq!(shapes("f(1, 2);"), vec!["call(f; lit(1), lit(2))"]);
    assert_eq!(shapes("f();"), vec!["call(f; )"]);
    assert_eq!(shapes("f(1, );"), vec!["call(f; lit(1))"]);
    assert_eq!(shapes("f(, 2);"), vec!["call(f; _, lit(2))"]);
    assert_eq!(shapes("f(, , 3);"), vec!["call(f; _, _, lit(3))"]);
    assert_eq!(shapes("f(1)(2);"), vec!["call(call(f; lit(1)); lit(2))"]);
    assert_eq!(shapes("f(g(1) + 2);"), vec!["call(f; (call(g; lit(1)) + lit(2)))"]);
}

#[test]
fn groups_lists_and_sets() {
    assert_eq!(shapes("(1 + 2) * 3;"), vec!["(group((lit(1) + lit(2))) * lit(3))"]);
    assert_eq!(shapes("[1, 2, 3];"), vec!["tuple(lit(1), lit(2), lit(3))"]);
    assert_eq!(shapes("[];"), vec!["tuple()"]);
    assert_eq!(shapes("[1, 2; 3, 4];"), vec!["matrix(lit(1), lit(2); lit(3), lit(4))"]);
    assert_eq!(shapes("[1; 2;];"), vec!["matrix(lit(1); lit(2))"]);
    assert_eq!(shapes("{1, x, {}};"), vec!["set(lit(1), x, set())"]);
    assert_eq!(shapes("{};"), vec!["set()"]);
}

#[test]
fn statements_end_with_a_line_or_a_semicolon() {
    assert_eq!(shapes("1\n2;\n\n;;3\n"), vec!["lit(1) !", "lit(2)", "lit(3) !"]);
    assert_eq!(shapes(""), Vec::<String>::new());
}

#[test]
fn malformed_sources_are_refused() {
    assert_eq!(parse("1 +").err(), Some(Error::Syntax));
    assert_eq!(parse("(1 + 2").err(), Some(Error::Syntax));
    assert_eq!(parse("[1, 2").err(), Some(Error::Syntax));
    assert_eq!(parse("[1 2]").err(), Some(Error::Syntax));
    assert_eq!(parse("[1, 2; 3]").err(), Some(Error::Syntax));
    assert_eq!(parse("{1; 2}").err(), Some(Error::Syntax));
    assert_eq!(parse("{1, 2").err(), Some(Error::Syntax));
    assert_eq!(parse("f(1").err(), Some(Error::Syntax));
    assert_eq!(parse("1 2").err(), Some(Error::Syntax));
    assert_eq!(parse(")").err(), Some(Error::Syntax));
}

#[test]
fn keywords_are_not_implemented() {
    for word in ["do", "end", "data", "class", "object", "import", "as", "proc"] {
        assert_eq!(parse(word).err(), Some(Error::NotYetImplemented));
    }
}

#[test]
fn tokens_without_an_end_are_refused() {
    let tokens = vec![Token::new(TokenKind::Ident("x".to_string()), 1), Token::new(TokenKind::EOL, 1)];
    assert_eq!(Parser::new(&tokens).parse().err(), Some(Error::Syntax));
    let none: Vec<Token> = Vec::new();
    assert_eq!(Parser::new(&none).parse().err(), Some(Error::Syntax));
}

#[test]
fn signature_of_a_function() {
    let tokens = vec![
        Token::new(TokenKind::Ident("f".to_string()), 1),
        Token::new(TokenKind::Colon, 1),
        Token::new(TokenKind::Ident("Nat".to_string()), 1),
        Token::new(TokenKind::SmallArrow, 1),
        Token::new(TokenKind::Ident("Int".to_string()), 1),
        Token::new(TokenKind::Semicolon, 1),
        Token::new(TokenKind::EOF, 1),
    ];
    let ast = Parser::new(&tokens).parse().unwrap();
    match &ast.stmts()[0] {
        Stmt::ExprStmt(e, log) => {
            assert_eq!(shape(e), "signature(f; Nat; Int)");
            assert!(!*log);
        }
    }
}

#[test]
fn number_that_is_no_number_is_refused() {
    let tokens = vec![
        Token::new(TokenKind::Number("12a".to_string()), 1),
        Token::new(TokenKind::EOL, 1),
        Token::new(TokenKind::EOF, 1),
    ];
    assert_eq!(Parser::new(&tokens).parse().err(), Some(Error::Syntax));
}

#[test]
fn ast_collects_statements() {
    let mut ast = Ast::new();
    assert!(ast.stmts().is_empty());
    ast.push_stmt(Stmt::ExprStmt(Expr::Symbol("x".to_string()), true));
    ast.push_stmt(Stmt::ExprStmt(Expr::Symbol("y".to_string()), false));
    assert_eq!(ast.stmts().len(), 2);
    match &ast.stmts()[1] {
        Stmt::ExprStmt(e, log) => {
            assert_eq!(e.display(), "y");
            assert!(!*log);
        }
    }
}

#[test]
fn expressions_are_shown() {
    let ast = parse("f(x, ) + [1, 2] * {3} - (a ^ -b);").unwrap();
    match &ast.stmts()[0] {
        Stmt::ExprStmt(e, _) => assert_eq!(e.display(), "f(x) + [12] * {3} - (a ^ -b)"),
    }
    let ast = parse("[1, 2; 3, 4];").unwrap();
    match &ast.stmts()[0] {
        Stmt::ExprStmt(e, _) => assert_eq!(e.display(), "[ 1, 2; 3, 4 ]"),
    }
    let ast = parse("f(, 1);").unwrap();
    match &ast.stmts()[0] {
        Stmt::ExprStmt(e, _) => assert_eq!(e.display(), "f(, 1)"),
    }
}
