use mathscript::error::{Error, LexError};
use mathscript::lexer::Lexer;
use mathscript::token::{Token, TokenKind};

fn scan(source: &str) -> Vec<Token> {
    let lines: Vec<String> = source.lines().map(|l| l.to_string()).collect();
    Lexer::new().lex(&lines).expect("scan")
}

fn kinds(source: &str) -> Vec<String> {
    scan(source).iter().map(|t| format!("{:?}", t.kind())).collect()
}

#[test]
fn single_symbols() {
    assert_eq!(
        kinds("+ - * / ^ = ! ~ | & \\ < > ( ) [ ] { } # . , ; :"),
        vec![
            "Plus", "Minus", "Star", "Slash", "Caret", "Eq", "Bang", "Tilde", "Bar", "Amp",
            "BackSlash", "Less", "Greater", "OpenParen", "CloseParen", "OpenBracket",
            "CloseBracket", "OpenBrace", "CloseBrace", "Hash", "Dot", "Comma", "Semicolon",
            "Colon", "EOL", "EOF"
        ]
    );
}

#[test]
fn double_and_triple_symbols() {
    assert_eq!(
        kinds("== != <= >= && || =: <: >: <=: >=:"),
        vec![
            "DblEq", "BangEq", "LessEq", "GreaterEq", "DblAmp", "DblBar", "EqColon", "LessColon",
            "GreaterColon", "LessEqColon", "GreaterEqColon", "EOL", "EOF"
        ]
    );
}

#[test]
fn symbols_at_the_end_of_a_line() {
    assert_eq!(kinds("="), vec!["Eq", "EOL", "EOF"]);
    assert_eq!(kinds("<="), vec!["LessEq", "EOL", "EOF"]);
    assert_eq!(kinds("<"), vec!["Less", "EOL", "EOF"]);
    assert_eq!(kinds("/"), vec!["Slash", "EOL", "EOF"]);
    assert_eq!(kinds("a=b"), vec!["Ident(\"a\")", "Eq", "Ident(\"b\")", "EOL", "EOF"]);
}

#[test]
fn numbers_and_identifiers() {
    assert_eq!(
        kinds("x1 = 1_000 + y_2"),
        vec!["Ident(\"x1\")", "Eq", "Number(\"1_000\")", "Plus", "Ident(\"y_2\")", "EOL", "EOF"]
    );
    assert_eq!(kinds("12.5"), vec!["Number(\"12\")", "Dot", "Number(\"5\")", "EOL", "EOF"]);
    assert_eq!(kinds("2i"), vec!["Number(\"2\")", "Ident(\"i\")", "EOL", "EOF"]);
    assert_eq!(kinds("_a"), vec!["Ident(\"_a\")", "EOL", "EOF"]);
    assert_eq!(kinds("f(x)"), vec!["Ident(\"f\")", "OpenParen", "Ident(\"x\")", "CloseParen", "EOL", "EOF"]);
}

#[test]
fn strings_and_characters() {
    assert_eq!(kinds("\"a b+c\""), vec!["String(\"a b+c\")", "EOL", "EOF"]);
    assert_eq!(kinds("'x'"), vec!["Char(\"x\")", "EOL", "EOF"]);
    assert_eq!(kinds("\"\""), vec!["String(\"\")", "EOL", "EOF"]);
}

#[test]
fn comments_are_passed_over() {
    assert_eq!(kinds("1 // rest"), vec!["Number(\"1\")", "EOL", "EOF"]);
    assert_eq!(kinds("1 /* in */ 2"), vec!["Number(\"1\")", "Number(\"2\")", "EOL", "EOF"]);
    assert_eq!(kinds("1 /* a /* b */ c */ 2"), vec!["Number(\"1\")", "Number(\"2\")", "EOL", "EOF"]);
    assert_eq!(kinds("1 /* open\nstill */ 2"), vec!["Number(\"1\")", "Number(\"2\")", "EOL", "EOF"]);
}

#[test]
fn lines_are_counted() {
    let tokens = scan("a\nb\n\nc");
    let lines: Vec<usize> = tokens.iter().map(|t| t.line()).collect();
    assert_eq!(lines, vec![1, 1, 2, 2, 3, 4, 4, 5]);
    assert_eq!(format!("{:?}", tokens[7].kind()), "EOF");
}

#[test]
fn empty_source_is_the_end_of_the_file() {
    assert_eq!(kinds(""), vec!["EOF"]);
}

#[test]
fn open_string_is_refused() {
    let lines = vec!["x = \"abc".to_string()];
    assert_eq!(Lexer::new().lex(&lines).err(), Some(Error::Lexer(LexError::UnclosedString)));
}

#[test]
fn lex_line_adds_to_the_tokens() {
    let mut lexer = Lexer::new();
    let mut tokens: Vec<Token> = Vec::new();
    lexer.lex_line(&mut tokens, "a + 1");
    lexer.add_token(&mut tokens, TokenKind::EOF);
    let shown: Vec<String> = tokens.iter().map(|t| format!("{:?}", t.kind())).collect();
    assert_eq!(shown, vec!["Ident(\"a\")", "Plus", "Number(\"1\")", "EOF"]);
}

#[test]
fn letters_of_other_alphabets_are_letters() {
    assert_eq!(kinds("\u{3b1}\u{3b2} = 1"), vec!["Ident(\"\u{3b1}\u{3b2}\")", "Eq", "Number(\"1\")", "EOL", "EOF"]);
}

#[test]
fn token_readings() {
    let mut token = Token::new(TokenKind::Ident("ab".to_string()), 3);
    assert_eq!(token.line(), 3);
    assert_eq!(token.lexeme(), "ab");
    token.append_to_lexeme('c');
    assert_eq!(token.lexeme(), "abc");
    let mut plus = Token::new(TokenKind::Plus, 1);
    plus.append_to_lexeme('c');
    assert_eq!(plus.lexeme(), "+");
    assert!(plus.kind().same(&TokenKind::Plus));
    assert!(!plus.kind().same(&TokenKind::Minus));
    assert!(token.kind().same(&TokenKind::Ident("abc".to_string())));
    assert!(!token.kind().same(&TokenKind::Ident("abd".to_string())));
    assert!(!token.kind().same(&TokenKind::String("abc".to_string())));
    let end = Token::default();
    assert_eq!(end.lexeme(), "");
    assert_eq!(end.line(), 0);
    assert!(end.kind().same(&TokenKind::EOL));
    assert_eq!(Token::new(TokenKind::GreaterEqColon, 1).lexeme(), ">=:");
    assert_eq!(Token::new(TokenKind::SmallArrow, 1).lexeme(), "->");
    assert_eq!(Token::new(TokenKind::FatArrow, 1).lexeme(), "=>");
    assert_eq!(Token::new(TokenKind::BackSlash, 1).lexeme(), "\\");
    assert_eq!(Token::new(TokenKind::EOF, 1).lexeme(), "");
    assert_eq!(plus.clone().lexeme(), "+");
}

#[test]
fn a_quote_of_the_other_kind_starts_anew() {
    let double = vec!["\"a'b\"".to_string()];
    assert_eq!(Lexer::new().lex(&double).err(), Some(Error::Lexer(LexError::UnclosedString)));
    let single = vec!["'a\"b\"'".to_string()];
    assert_eq!(Lexer::new().lex(&single).err(), Some(Error::Lexer(LexError::UnclosedString)));
    let mut lexer = Lexer::new();
    let mut tokens: Vec<Token> = Vec::new();
    lexer.lex_line(&mut tokens, "'a\"b\"'");
    let shown: Vec<String> = tokens.iter().map(|t| format!("{:?}", t.kind())).collect();
    assert_eq!(shown, vec!["String(\"b\")", "Char(\"\")"]);
}

#[test]
fn the_last_token_is_the_end_of_the_file() {
    for source in ["", "x", "x = 1\ny", "/* open"] {
        let tokens = scan(source);
        assert!(tokens.last().unwrap().kind().same(&TokenKind::EOF));
    }
}

fn line_of(text: &str) -> Vec<char> {
    text.chars().collect()
}

#[test]
fn a_step_goes_by_the_answers_it_is_given() {
    let chars = line_of("ab");
    let mut lexer = Lexer::new();
    let mut tokens: Vec<Token> = Vec::new();
    let mut current = Token::default();
    assert_eq!(lexer.step(&mut tokens, &mut current, &chars, 0, true, true), (1, false));
    assert_eq!(format!("{:?}", current.kind()), "Ident(\"a\")");
    assert_eq!(lexer.step(&mut tokens, &mut current, &chars, 1, true, true), (2, false));
    assert_eq!(format!("{:?}", current.kind()), "Ident(\"ab\")");
    assert!(tokens.is_empty());

    let mut lexer = Lexer::new();
    let mut tokens: Vec<Token> = Vec::new();
    let mut current = Token::default();
    assert_eq!(lexer.step(&mut tokens, &mut current, &chars, 0, true, true), (1, false));
    assert_eq!(lexer.step(&mut tokens, &mut current, &chars, 1, false, false), (2, false));
    assert_eq!(tokens.len(), 1);
    assert_eq!(format!("{:?}", tokens[0].kind()), "Ident(\"a\")");
    assert_eq!(format!("{:?}", current.kind()), "EOL");
}

#[test]
fn a_step_on_what_is_no_letter_builds_nothing() {
    let chars = line_of("a");
    let mut lexer = Lexer::new();
    let mut tokens: Vec<Token> = Vec::new();
    let mut current = Token::default();
    assert_eq!(lexer.step(&mut tokens, &mut current, &chars, 0, false, false), (1, false));
    assert!(tokens.is_empty());
    assert_eq!(format!("{:?}", current.kind()), "EOL");
}

#[test]
fn a_step_on_symbols_and_comments() {
    let chars = line_of("<=: x // y");
    let mut lexer = Lexer::new();
    let mut tokens: Vec<Token> = Vec::new();
    let mut current = Token::default();
    assert_eq!(lexer.step(&mut tokens, &mut current, &chars, 0, false, false), (3, false));
    assert_eq!(format!("{:?}", tokens[0].kind()), "LessEqColon");
    assert_eq!(lexer.step(&mut tokens, &mut current, &chars, 3, false, false), (4, false));
    assert_eq!(lexer.step(&mut tokens, &mut current, &chars, 4, true, true), (5, false));
    assert_eq!(lexer.step(&mut tokens, &mut current, &chars, 5, false, false), (6, false));
    assert_eq!(lexer.step(&mut tokens, &mut current, &chars, 6, false, false), (7, true));
    assert_eq!(tokens.len(), 2);
    assert_eq!(format!("{:?}", tokens[1].kind()), "Ident(\"x\")");

    let chars = line_of("/* a */b");
    let mut lexer = Lexer::new();
    let mut tokens: Vec<Token> = Vec::new();
    let mut current = Token::default();
    assert_eq!(lexer.step(&mut tokens, &mut current, &chars, 0, false, false), (2, false));
    assert_eq!(lexer.step(&mut tokens, &mut current, &chars, 3, true, true), (4, false));
    assert_eq!(lexer.step(&mut tokens, &mut current, &chars, 5, false, false), (7, false));
    assert_eq!(lexer.step(&mut tokens, &mut current, &chars, 7, true, true), (8, false));
    assert!(tokens.is_empty());
    assert_eq!(format!("{:?}", current.kind()), "Ident(\"b\")");
}

#[test]
fn a_step_inside_a_string_takes_every_character() {
    let chars = line_of("\"a+\"");
    let mut lexer = Lexer::new();
    let mut tokens: Vec<Token> = Vec::new();
    let mut current = Token::default();
    assert_eq!(lexer.step(&mut tokens, &mut current, &chars, 0, false, false), (1, false));
    assert_eq!(lexer.step(&mut tokens, &mut current, &chars, 1, true, true), (2, false));
    assert_eq!(lexer.step(&mut tokens, &mut current, &chars, 2, false, false), (3, false));
    assert_eq!(format!("{:?}", current.kind()), "String(\"a+\")");
    assert_eq!(lexer.step(&mut tokens, &mut current, &chars, 3, false, false), (4, false));
    assert_eq!(tokens.len(), 1);
    assert_eq!(format!("{:?}", tokens[0].kind()), "String(\"a+\")");
}

#[test]
fn many_characters_in_a_line() {
    let text = "é".repeat(300) + " = 1";
    assert_eq!(kinds(&text), vec![format!("Ident({:?})", "é".repeat(300)), "Eq".to_string(), "Number(\"1\")".to_string(), "EOL".to_string(), "EOF".to_string()]);
}
