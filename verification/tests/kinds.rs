use mathscript::config::{Config, Mode};
use mathscript::error::Error;
use mathscript::types::{TNum, TText, Type};

#[test]
fn kinds_of_numbers_take_in_the_wider_kinds() {
    assert_eq!(TNum::complex().bits, 0b0010_0000);
    assert_eq!(TNum::real_number().bits, 0b0011_0000);
    assert_eq!(TNum::alg().bits, 0b0011_1000);
    assert_eq!(TNum::integer().bits, 0b0011_1100);
    assert_eq!(TNum::natural().bits, 0b0011_1110);
    assert_eq!(TNum::whole().bits, 0b0011_1111);
    assert!(TNum::natural().contains(TNum::integer()));
    assert!(!TNum::integer().contains(TNum::natural()));
    assert_eq!(TNum::complex().union(TNum { bits: 1 }).bits, 0b0010_0001);
}

#[test]
fn kinds_of_texts_take_in_the_wider_kinds() {
    assert_eq!(TText::str().bits, 0b0000_1000);
    assert_eq!(TText::grapheme().bits, 0b0000_1100);
    assert_eq!(TText::char().bits, 0b0000_1110);
    assert_eq!(TText::ascii().bits, 0b0000_1111);
    assert!(TText::ascii().contains(TText::str()));
    assert!(!TText::str().contains(TText::ascii()));
    assert_eq!(TText::str().union(TText { bits: 1 }).bits, 0b0000_1001);
}

#[test]
fn kinds_compare() {
    assert_eq!(Type::Num(TNum::complex()), Type::Num(TNum { bits: 32 }));
    assert_ne!(Type::Text(TText::str()), Type::Symbol);
}

#[test]
fn settings_from_arguments() {
    let none = vec!["prog".to_string()];
    assert!(matches!(Config::build(&none, false).unwrap().mode(), Mode::Repl));
    assert!(matches!(Config::build(&Vec::new(), true).unwrap().mode(), Mode::Repl));
    let file = vec!["prog".to_string(), "a.txt".to_string(), "more".to_string()];
    match Config::build(&file, true).unwrap().mode() {
        Mode::File(path) => assert_eq!(path, "a.txt"),
        Mode::Repl => panic!("no file"),
    }
    assert_eq!(Config::build(&file, false).err(), Some(Error::FileNotFound));
    let config = Config::build(&file, true).unwrap();
    assert!(matches!(config.clone().mode(), Mode::File(_)));
}

#[test]
fn failures_have_words() {
    assert_eq!(Error::FileNotFound.message(), "File not found");
    assert_eq!(Error::UndefinedSymbol.message(), "a variable is not defined");
    assert_eq!(Error::Lexer(mathscript::error::LexError::UnclosedString).message(), "a string is left open");
    let all = [
        Error::Syntax,
        Error::UndefinedSymbol,
        Error::ReassignmentError,
        Error::TypeMismatch,
        Error::NotASet,
        Error::NotCallable,
        Error::ArityError,
        Error::UnsupportedOperation,
        Error::NotYetImplemented,
        Error::DepthExceeded,
        Error::FileNotFound,
    ];
    for (i, a) in all.iter().enumerate() {
        for (j, b) in all.iter().enumerate() {
            assert_eq!(a.message() == b.message(), i == j);
        }
    }
}
