//! Tokens: what the scanner hands to the parser.

use vstd::prelude::*;

verus! {

/// The kind of a token; identifiers, strings, characters and numbers carry
/// their text.
#[derive(Debug)]
pub enum TokenKind {
    Plus,
    Minus,
    Star,
    Slash,
    Caret,
    Eq,
    Bang,
    Tilde,
    Bar,
    Amp,
    BackSlash,
    Less,
    Greater,
    OpenParen,
    CloseParen,
    OpenBracket,
    CloseBracket,
    OpenBrace,
    CloseBrace,
    Hash,
    Dot,
    Comma,
    Semicolon,
    Colon,
    DblEq,
    BangEq,
    LessEq,
    GreaterEq,
    DblAmp,
    DblBar,
    EqColon,
    LessColon,
    GreaterColon,
    SmallArrow,
    FatArrow,
    LessEqColon,
    GreaterEqColon,
    Ident(String),
    String(String),
    Char(String),
    Number(String),
    EOL,
    EOF,
}

/// A token kind with its text as a sequence of characters.
pub ghost enum TokenKindView {
    Plus,
    Minus,
    Star,
    Slash,
    Caret,
    Eq,
    Bang,
    Tilde,
    Bar,
    Amp,
    BackSlash,
    Less,
    Greater,
    OpenParen,
    CloseParen,
    OpenBracket,
    CloseBracket,
    OpenBrace,
    CloseBrace,
    Hash,
    Dot,
    Comma,
    Semicolon,
    Colon,
    DblEq,
    BangEq,
    LessEq,
    GreaterEq,
    DblAmp,
    DblBar,
    EqColon,
    LessColon,
    GreaterColon,
    SmallArrow,
    FatArrow,
    LessEqColon,
    GreaterEqColon,
    Ident(Seq<char>),
    String(Seq<char>),
    Char(Seq<char>),
    Number(Seq<char>),
    EOL,
    EOF,
}

impl View for TokenKind {
    type V = TokenKindView;

    open spec fn view(&self) -> TokenKindView {
        match self {
            TokenKind::Plus => TokenKindView::Plus,
            TokenKind::Minus => TokenKindView::Minus,
            TokenKind::Star => TokenKindView::Star,
            TokenKind::Slash => TokenKindView::Slash,
            TokenKind::Caret => TokenKindView::Caret,
            TokenKind::Eq => TokenKindView::Eq,
            TokenKind::Bang => TokenKindView::Bang,
            TokenKind::Tilde => TokenKindView::Tilde,
            TokenKind::Bar => TokenKindView::Bar,
            TokenKind::Amp => TokenKindView::Amp,
            TokenKind::BackSlash => TokenKindView::BackSlash,
            TokenKind::Less => TokenKindView::Less,
            TokenKind::Greater => TokenKindView::Greater,
            TokenKind::OpenParen => TokenKindView::OpenParen,
            TokenKind::CloseParen => TokenKindView::CloseParen,
            TokenKind::OpenBracket => TokenKindView::OpenBracket,
            TokenKind::CloseBracket => TokenKindView::CloseBracket,
            TokenKind::OpenBrace => TokenKindView::OpenBrace,
            TokenKind::CloseBrace => TokenKindView::CloseBrace,
            TokenKind::Hash => TokenKindView::Hash,
            TokenKind::Dot => TokenKindView::Dot,
            TokenKind::Comma => TokenKindView::Comma,
            TokenKind::Semicolon => TokenKindView::Semicolon,
            TokenKind::Colon => TokenKindView::Colon,
            TokenKind::DblEq => TokenKindView::DblEq,
            TokenKind::BangEq => TokenKindView::BangEq,
            TokenKind::LessEq => TokenKindView::LessEq,
            TokenKind::GreaterEq => TokenKindView::GreaterEq,
            TokenKind::DblAmp => TokenKindView::DblAmp,
            TokenKind::DblBar => TokenKindView::DblBar,
            TokenKind::EqColon => TokenKindView::EqColon,
            TokenKind::LessColon => TokenKindView::LessColon,
            TokenKind::GreaterColon => TokenKindView::GreaterColon,
            TokenKind::SmallArrow => TokenKindView::SmallArrow,
            TokenKind::FatArrow => TokenKindView::FatArrow,
            TokenKind::LessEqColon => TokenKindView::LessEqColon,
            TokenKind::GreaterEqColon => TokenKindView::GreaterEqColon,
            TokenKind::EOL => TokenKindView::EOL,
            TokenKind::EOF => TokenKindView::EOF,
            TokenKind::Ident(text) => TokenKindView::Ident(text@),
            TokenKind::String(text) => TokenKindView::String(text@),
            TokenKind::Char(text) => TokenKindView::Char(text@),
            TokenKind::Number(text) => TokenKindView::Number(text@),
        }
    }
}

/// The text that a token of this kind stands for in the source.
pub open spec fn lexeme_of(kind: TokenKindView) -> Seq<char> {
    match kind {
        TokenKindView::Ident(text) => text,
        TokenKindView::String(text) => text,
        TokenKindView::Char(text) => text,
        TokenKindView::Number(text) => text,
        TokenKindView::Plus => "+"@,
        TokenKindView::Minus => "-"@,
        TokenKindView::Star => "*"@,
        TokenKindView::Slash => "/"@,
        TokenKindView::Caret => "^"@,
        TokenKindView::Eq => "="@,
        TokenKindView::Bang => "!"@,
        TokenKindView::Tilde => "~"@,
        TokenKindView::Bar => "|"@,
        TokenKindView::Amp => "&"@,
        TokenKindView::BackSlash => "\\"@,
        TokenKindView::Less => "<"@,
        TokenKindView::Greater => ">"@,
        TokenKindView::OpenParen => "("@,
        TokenKindView::CloseParen => ")"@,
        TokenKindView::OpenBracket => "["@,
        TokenKindView::CloseBracket => "]"@,
        TokenKindView::OpenBrace => "{"@,
        TokenKindView::CloseBrace => "}"@,
        TokenKindView::Hash => "#"@,
        TokenKindView::Dot => "."@,
        TokenKindView::Comma => ","@,
        TokenKindView::Semicolon => ";"@,
        TokenKindView::Colon => ":"@,
        TokenKindView::DblEq => "=="@,
        TokenKindView::BangEq => "!="@,
        TokenKindView::LessEq => "<="@,
        TokenKindView::GreaterEq => ">="@,
        TokenKindView::DblAmp => "&&"@,
        TokenKindView::DblBar => "||"@,
        TokenKindView::EqColon => "=:"@,
        TokenKindView::LessColon => "<:"@,
        TokenKindView::GreaterColon => ">:"@,
        TokenKindView::SmallArrow => "->"@,
        TokenKindView::FatArrow => "=>"@,
        TokenKindView::LessEqColon => "<=:"@,
        TokenKindView::GreaterEqColon => ">=:"@,
        TokenKindView::EOL => ""@,
        TokenKindView::EOF => ""@,
    }
}

impl Clone for TokenKind {
    fn clone(&self) -> (r: Self)
        ensures
            r@ == self@,
    {
        match self {
            TokenKind::Plus => TokenKind::Plus,
            TokenKind::Minus => TokenKind::Minus,
            TokenKind::Star => TokenKind::Star,
            TokenKind::Slash => TokenKind::Slash,
            TokenKind::Caret => TokenKind::Caret,
            TokenKind::Eq => TokenKind::Eq,
            TokenKind::Bang => TokenKind::Bang,
            TokenKind::Tilde => TokenKind::Tilde,
            TokenKind::Bar => TokenKind::Bar,
            TokenKind::Amp => TokenKind::Amp,
            TokenKind::BackSlash => TokenKind::BackSlash,
            TokenKind::Less => TokenKind::Less,
            TokenKind::Greater => TokenKind::Greater,
            TokenKind::OpenParen => TokenKind::OpenParen,
            TokenKind::CloseParen => TokenKind::CloseParen,
            TokenKind::OpenBracket => TokenKind::OpenBracket,
            TokenKind::CloseBracket => TokenKind::CloseBracket,
            TokenKind::OpenBrace => TokenKind::OpenBrace,
            TokenKind::CloseBrace => TokenKind::CloseBrace,
            TokenKind::Hash => TokenKind::Hash,
            TokenKind::Dot => TokenKind::Dot,
            TokenKind::Comma => TokenKind::Comma,
            TokenKind::Semicolon => TokenKind::Semicolon,
            TokenKind::Colon => TokenKind::Colon,
            TokenKind::DblEq => TokenKind::DblEq,
            TokenKind::BangEq => TokenKind::BangEq,
            TokenKind::LessEq => TokenKind::LessEq,
            TokenKind::GreaterEq => TokenKind::GreaterEq,
            TokenKind::DblAmp => TokenKind::DblAmp,
            TokenKind::DblBar => TokenKind::DblBar,
            TokenKind::EqColon => TokenKind::EqColon,
            TokenKind::LessColon => TokenKind::LessColon,
            TokenKind::GreaterColon => TokenKind::GreaterColon,
            TokenKind::SmallArrow => TokenKind::SmallArrow,
            TokenKind::FatArrow => TokenKind::FatArrow,
            TokenKind::LessEqColon => TokenKind::LessEqColon,
            TokenKind::GreaterEqColon => TokenKind::GreaterEqColon,
            TokenKind::EOL => TokenKind::EOL,
            TokenKind::EOF => TokenKind::EOF,
            TokenKind::Ident(text) => TokenKind::Ident(text.clone()),
            TokenKind::String(text) => TokenKind::String(text.clone()),
            TokenKind::Char(text) => TokenKind::Char(text.clone()),
            TokenKind::Number(text) => TokenKind::Number(text.clone()),
        }
    }
}

impl TokenKind {
    /// A number that tells the variants apart.
    pub open spec fn spec_tag(kind: TokenKindView) -> nat {
        match kind {
            TokenKindView::Plus => 0,
            TokenKindView::Minus => 1,
            TokenKindView::Star => 2,
            TokenKindView::Slash => 3,
            TokenKindView::Caret => 4,
            TokenKindView::Eq => 5,
            TokenKindView::Bang => 6,
            TokenKindView::Tilde => 7,
            TokenKindView::Bar => 8,
            TokenKindView::Amp => 9,
            TokenKindView::BackSlash => 10,
            TokenKindView::Less => 11,
            TokenKindView::Greater => 12,
            TokenKindView::OpenParen => 13,
            TokenKindView::CloseParen => 14,
            TokenKindView::OpenBracket => 15,
            TokenKindView::CloseBracket => 16,
            TokenKindView::OpenBrace => 17,
            TokenKindView::CloseBrace => 18,
            TokenKindView::Hash => 19,
            TokenKindView::Dot => 20,
            TokenKindView::Comma => 21,
            TokenKindView::Semicolon => 22,
            TokenKindView::Colon => 23,
            TokenKindView::DblEq => 24,
            TokenKindView::BangEq => 25,
            TokenKindView::LessEq => 26,
            TokenKindView::GreaterEq => 27,
            TokenKindView::DblAmp => 28,
            TokenKindView::DblBar => 29,
            TokenKindView::EqColon => 30,
            TokenKindView::LessColon => 31,
            TokenKindView::GreaterColon => 32,
            TokenKindView::SmallArrow => 33,
            TokenKindView::FatArrow => 34,
            TokenKindView::LessEqColon => 35,
            TokenKindView::GreaterEqColon => 36,
            TokenKindView::Ident(_) => 37,
            TokenKindView::String(_) => 38,
            TokenKindView::Char(_) => 39,
            TokenKindView::Number(_) => 40,
            TokenKindView::EOL => 41,
            TokenKindView::EOF => 42,
        }
    }

    fn tag(&self) -> (r: u8)
        ensures
            r == Self::spec_tag(self@),
    {
        match self {
            TokenKind::Plus => 0,
            TokenKind::Minus => 1,
            TokenKind::Star => 2,
            TokenKind::Slash => 3,
            TokenKind::Caret => 4,
            TokenKind::Eq => 5,
            TokenKind::Bang => 6,
            TokenKind::Tilde => 7,
            TokenKind::Bar => 8,
            TokenKind::Amp => 9,
            TokenKind::BackSlash => 10,
            TokenKind::Less => 11,
            TokenKind::Greater => 12,
            TokenKind::OpenParen => 13,
            TokenKind::CloseParen => 14,
            TokenKind::OpenBracket => 15,
            TokenKind::CloseBracket => 16,
            TokenKind::OpenBrace => 17,
            TokenKind::CloseBrace => 18,
            TokenKind::Hash => 19,
            TokenKind::Dot => 20,
            TokenKind::Comma => 21,
            TokenKind::Semicolon => 22,
            TokenKind::Colon => 23,
            TokenKind::DblEq => 24,
            TokenKind::BangEq => 25,
            TokenKind::LessEq => 26,
            TokenKind::GreaterEq => 27,
            TokenKind::DblAmp => 28,
            TokenKind::DblBar => 29,
            TokenKind::EqColon => 30,
            TokenKind::LessColon => 31,
            TokenKind::GreaterColon => 32,
            TokenKind::SmallArrow => 33,
            TokenKind::FatArrow => 34,
            TokenKind::LessEqColon => 35,
            TokenKind::GreaterEqColon => 36,
            TokenKind::Ident(_) => 37,
            TokenKind::String(_) => 38,
            TokenKind::Char(_) => 39,
            TokenKind::Number(_) => 40,
            TokenKind::EOL => 41,
            TokenKind::EOF => 42,
        }
    }

    /// Whether two kinds are the same, texts included.
    pub fn same(&self, other: &TokenKind) -> (b: bool)
        ensures
            b == (self@ == other@),
    {
        match (self, other) {
            (TokenKind::Ident(a), TokenKind::Ident(b)) => *a == *b,
            (TokenKind::String(a), TokenKind::String(b)) => *a == *b,
            (TokenKind::Char(a), TokenKind::Char(b)) => *a == *b,
            (TokenKind::Number(a), TokenKind::Number(b)) => *a == *b,
            _ => self.tag() == other.tag(),
        }
    }
}

/// A token and the line it was read on.
#[derive(Debug)]
pub struct Token {
    kind: TokenKind,
    line: usize,
}

pub ghost struct TokenView {
    pub kind: TokenKindView,
    pub line: nat,
}

impl View for Token {
    type V = TokenView;

    closed spec fn view(&self) -> TokenView {
        TokenView { kind: self.kind@, line: self.line as nat }
    }
}

impl Clone for Token {
    fn clone(&self) -> (r: Self)
        ensures
            r@ == self@,
    {
        Token { kind: self.kind.clone(), line: self.line }
    }
}

impl Default for Token {
    /// An end-of-line token on line 0.
    fn default() -> (r: Self)
        ensures
            r@ == (TokenView { kind: TokenKindView::EOL, line: 0 }),
    {
        Token { kind: TokenKind::EOL, line: 0 }
    }
}

impl Token {
    pub fn new(kind: TokenKind, line: usize) -> (r: Self)
        ensures
            r@ == (TokenView { kind: kind@, line: line as nat }),
    {
        Token { kind, line }
    }

    pub fn kind(&self) -> (r: &TokenKind)
        ensures
            r@ == self@.kind,
    {
        &self.kind
    }

    pub fn line(&self) -> (r: usize)
        ensures
            r == self@.line,
    {
        self.line
    }

    /// The text of the token: that of an identifier, string, character or
    /// number, else the symbol itself; empty for the end of a line or file.
    pub fn lexeme(&self) -> (r: &str)
        ensures
            r@ == lexeme_of(self@.kind),
    {
        match &self.kind {
            TokenKind::Ident(text) => text.as_str(),
            TokenKind::String(text) => text.as_str(),
            TokenKind::Char(text) => text.as_str(),
            TokenKind::Number(text) => text.as_str(),
            TokenKind::Plus => "+",
            TokenKind::Minus => "-",
            TokenKind::Star => "*",
            TokenKind::Slash => "/",
            TokenKind::Caret => "^",
            TokenKind::Eq => "=",
            TokenKind::Bang => "!",
            TokenKind::Tilde => "~",
            TokenKind::Bar => "|",
            TokenKind::Amp => "&",
            TokenKind::BackSlash => "\\",
            TokenKind::Less => "<",
            TokenKind::Greater => ">",
            TokenKind::OpenParen => "(",
            TokenKind::CloseParen => ")",
            TokenKind::OpenBracket => "[",
            TokenKind::CloseBracket => "]",
            TokenKind::OpenBrace => "{",
            TokenKind::CloseBrace => "}",
            TokenKind::Hash => "#",
            TokenKind::Dot => ".",
            TokenKind::Comma => ",",
            TokenKind::Semicolon => ";",
            TokenKind::Colon => ":",
            TokenKind::DblEq => "==",
            TokenKind::BangEq => "!=",
            TokenKind::LessEq => "<=",
            TokenKind::GreaterEq => ">=",
            TokenKind::DblAmp => "&&",
            TokenKind::DblBar => "||",
            TokenKind::EqColon => "=:",
            TokenKind::LessColon => "<:",
            TokenKind::GreaterColon => ">:",
            TokenKind::SmallArrow => "->",
            TokenKind::FatArrow => "=>",
            TokenKind::LessEqColon => "<=:",
            TokenKind::GreaterEqColon => ">=:",
            TokenKind::EOL => "",
            TokenKind::EOF => "",
        }
    }

    /// Adds a character to the text of an identifier, string, character or
    /// number; any other token stays as it is.
    pub fn append_to_lexeme(&mut self, ch: char)
        ensures
            final(self)@.line == old(self)@.line,
            final(self)@.kind == match old(self)@.kind {
                TokenKindView::Ident(text) => TokenKindView::Ident(text.push(ch)),
                TokenKindView::String(text) => TokenKindView::String(text.push(ch)),
                TokenKindView::Char(text) => TokenKindView::Char(text.push(ch)),
                TokenKindView::Number(text) => TokenKindView::Number(text.push(ch)),
                other => other,
            },
    {
        match &mut self.kind {
            TokenKind::Ident(text) => push_char(text, ch),
            TokenKind::String(text) => push_char(text, ch),
            TokenKind::Char(text) => push_char(text, ch),
            TokenKind::Number(text) => push_char(text, ch),
            _ => {},
        }
    }
}

/// `String::push`: the character is added at the end.
#[verifier::external_body]
pub(crate) fn push_char(text: &mut String, ch: char)
    ensures
        final(text)@ == old(text)@.push(ch),
{
    text.push(ch);
}

} // verus!
