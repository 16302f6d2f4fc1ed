//! The scanner: from the lines of a source text to tokens.

use crate::error::{Error, LexError};
use crate::interpreter::lines_view;
use crate::parser::tokens_view;
use crate::token::{push_char, Token, TokenKind, TokenKindView, TokenView};
use vstd::prelude::*;

verus! {

/// Whether std counts the character as alphabetic.
pub uninterp spec fn alphabetic(c: char) -> bool;

/// Whether std counts the character as alphabetic or numeric.
pub uninterp spec fn alphanumeric(c: char) -> bool;

pub open spec fn is_digit(c: char) -> bool {
    '0' <= c <= '9'
}

/// `char::is_alphabetic`, which goes by the Unicode tables of std.
#[verifier::external_body]
fn is_alphabetic(c: char) -> (r: bool)
    ensures
        r == alphabetic(c),
{
    c.is_alphabetic()
}

/// `char::is_alphanumeric`, which goes by the Unicode tables of std.
#[verifier::external_body]
fn is_alphanumeric(c: char) -> (r: bool)
    ensures
        r == alphanumeric(c),
{
    c.is_alphanumeric()
}

/// The characters of the text in order.
fn chars_of(text: &str) -> (r: Vec<char>)
    ensures
        r@ == text@,
{
    let n = text.unicode_len();
    let mut out: Vec<char> = Vec::new();
    let mut i: usize = 0;
    while i < n
        invariant
            n == text@.len(),
            i <= n,
            out@ == text@.take(i as int),
        decreases n - i,
    {
        out.push(text.get_char(i));
        assert(out@ =~= text@.take(i + 1));
        i += 1;
    }
    assert(text@.take(n as int) =~= text@);
    out
}

fn digit(c: char) -> (b: bool)
    ensures
        b == is_digit(c),
{
    '0' <= c && c <= '9'
}

/// What the scanner knows while it reads a line: the tokens so far, the token
/// it is building, the number of the line, whether it is inside a string or
/// character, and how deep inside comments.
pub ghost struct LexState {
    pub tokens: Seq<TokenView>,
    pub current: TokenView,
    pub line: nat,
    pub in_string: bool,
    pub level: nat,
}

/// A step of the scanner: the state after it, the place of the next
/// character, and whether the rest of the line is passed over.
pub ghost struct Step {
    pub state: LexState,
    pub next: nat,
    pub stop: bool,
}

/// The token that stands for "none being built".
pub open spec fn no_token() -> TokenView {
    TokenView { kind: TokenKindView::EOL, line: 0 }
}

pub open spec fn char_at(chars: Seq<char>, i: nat) -> Option<char> {
    if i < chars.len() {
        Some(chars[i as int])
    } else {
        None
    }
}

/// The state with a token of the given kind added.
pub open spec fn with_token(st: LexState, kind: TokenKindView) -> LexState {
    LexState { tokens: st.tokens.push(TokenView { kind, line: st.line }), ..st }
}

/// The state with the token being built added and none being built.
pub open spec fn flush(st: LexState) -> LexState {
    LexState { tokens: st.tokens.push(st.current), current: no_token(), ..st }
}

/// The token with a character added to its text, if it has one.
pub open spec fn extend(token: TokenView, ch: char) -> TokenView {
    TokenView {
        kind: match token.kind {
            TokenKindView::Ident(text) => TokenKindView::Ident(text.push(ch)),
            TokenKindView::String(text) => TokenKindView::String(text.push(ch)),
            TokenKindView::Char(text) => TokenKindView::Char(text.push(ch)),
            TokenKindView::Number(text) => TokenKindView::Number(text.push(ch)),
            other => other,
        },
        line: token.line,
    }
}

pub open spec fn go(st: LexState, next: nat) -> Step {
    Step { state: st, next, stop: false }
}

/// One more, up to `limit`.
pub open spec fn bump(n: nat, limit: nat) -> nat {
    if n < limit {
        n + 1
    } else {
        n
    }
}

/// A step inside a comment: `*/` ends a comment, `/*` begins another within
/// it, anything else is passed over.
pub open spec fn comment_step(st: LexState, chars: Seq<char>, i: nat, ch: char) -> Step {
    if ch == '*' {
        if char_at(chars, i + 1) == Some('/') {
            go(LexState { level: (st.level - 1) as nat, ..st }, i + 2)
        } else {
            go(st, i + 1)
        }
    } else if ch == '/' {
        if char_at(chars, i + 1) == Some('*') {
            go(LexState { level: bump(st.level, u32::MAX as nat), ..st }, i + 2)
        } else {
            go(st, i + 1)
        }
    } else {
        go(st, i + 1)
    }
}

/// A step on a character outside comments and strings, with no number or
/// identifier being built that the character would end. `letter` says
/// whether the character is alphabetic.
pub open spec fn symbol_step(
    st: LexState,
    chars: Seq<char>,
    i: nat,
    ch: char,
    letter: bool,
) -> Step {
    let after = char_at(chars, i + 1);
    if ch == '+' {
        go(with_token(st, TokenKindView::Plus), i + 1)
    } else if ch == '-' {
        go(with_token(st, TokenKindView::Minus), i + 1)
    } else if ch == '*' {
        go(with_token(st, TokenKindView::Star), i + 1)
    } else if ch == '/' {
        if after == Some('/') {
            Step {
                state: if st.current.kind != TokenKindView::EOL {
                    LexState { tokens: st.tokens.push(st.current), ..st }
                } else {
                    st
                },
                next: i + 1,
                stop: true,
            }
        } else if after == Some('*') {
            let flushed = if st.current.kind != TokenKindView::EOL {
                flush(st)
            } else {
                st
            };
            go(LexState { level: bump(flushed.level, u32::MAX as nat), ..flushed }, i + 2)
        } else {
            go(with_token(st, TokenKindView::Slash), i + 1)
        }
    } else if ch == '^' {
        go(with_token(st, TokenKindView::Caret), i + 1)
    } else if ch == '=' {
        if after == Some('=') {
            go(with_token(st, TokenKindView::DblEq), i + 2)
        } else if after == Some(':') {
            go(with_token(st, TokenKindView::EqColon), i + 2)
        } else {
            go(with_token(st, TokenKindView::Eq), i + 1)
        }
    } else if ch == '!' {
        if after == Some('=') {
            go(with_token(st, TokenKindView::BangEq), i + 2)
        } else {
            go(with_token(st, TokenKindView::Bang), i + 1)
        }
    } else if ch == '~' {
        go(with_token(st, TokenKindView::Tilde), i + 1)
    } else if ch == '|' {
        if after == Some('|') {
            go(with_token(st, TokenKindView::DblBar), i + 2)
        } else {
            go(with_token(st, TokenKindView::Bar), i + 1)
        }
    } else if ch == '&' {
        if after == Some('&') {
            go(with_token(st, TokenKindView::DblAmp), i + 2)
        } else {
            go(with_token(st, TokenKindView::Amp), i + 1)
        }
    } else if ch == '\\' {
        go(with_token(st, TokenKindView::BackSlash), i + 1)
    } else if ch == '<' {
        if after == Some('=') {
            if char_at(chars, i + 2) == Some(':') {
                go(with_token(st, TokenKindView::LessEqColon), i + 3)
            } else {
                go(with_token(st, TokenKindView::LessEq), i + 2)
            }
        } else if after == Some(':') {
            go(with_token(st, TokenKindView::LessColon), i + 2)
        } else {
            go(with_token(st, TokenKindView::Less), i + 1)
        }
    } else if ch == '>' {
        if after == Some('=') {
            if char_at(chars, i + 2) == Some(':') {
                go(with_token(st, TokenKindView::GreaterEqColon), i + 3)
            } else {
                go(with_token(st, TokenKindView::GreaterEq), i + 2)
            }
        } else if after == Some(':') {
            go(with_token(st, TokenKindView::GreaterColon), i + 2)
        } else {
            go(with_token(st, TokenKindView::Greater), i + 1)
        }
    } else if ch == '(' {
        go(with_token(st, TokenKindView::OpenParen), i + 1)
    } else if ch == ')' {
        go(with_token(st, TokenKindView::CloseParen), i + 1)
    } else if ch == '[' {
        go(with_token(st, TokenKindView::OpenBracket), i + 1)
    } else if ch == ']' {
        go(with_token(st, TokenKindView::CloseBracket), i + 1)
    } else if ch == '{' {
        go(with_token(st, TokenKindView::OpenBrace), i + 1)
    } else if ch == '}' {
        go(with_token(st, TokenKindView::CloseBrace), i + 1)
    } else if ch == ',' {
        go(with_token(st, TokenKindView::Comma), i + 1)
    } else if ch == '.' {
        go(with_token(st, TokenKindView::Dot), i + 1)
    } else if ch == ';' {
        go(with_token(st, TokenKindView::Semicolon), i + 1)
    } else if ch == ':' {
        go(with_token(st, TokenKindView::Colon), i + 1)
    } else if ch == '#' {
        go(with_token(st, TokenKindView::Hash), i + 1)
    } else if ch == '\n' {
        go(with_token(st, TokenKindView::EOL), i + 1)
    } else if ch == '_' {
        if st.current.kind is Ident || st.current.kind is Number {
            go(LexState { current: extend(st.current, ch), ..st }, i + 1)
        } else {
            go(
                LexState {
                    current: TokenView { kind: TokenKindView::Ident(seq!['_']), line: st.line },
                    ..st
                },
                i + 1,
            )
        }
    } else if ch == '\'' {
        if st.current.kind is Char {
            go(LexState { in_string: false, ..flush(st) }, i + 1)
        } else {
            go(
                LexState {
                    current: TokenView { kind: TokenKindView::Char(Seq::empty()), line: st.line },
                    in_string: true,
                    ..st
                },
                i + 1,
            )
        }
    } else if ch == '"' {
        if st.current.kind is String {
            go(LexState { in_string: false, ..flush(st) }, i + 1)
        } else {
            go(
                LexState {
                    current: TokenView { kind: TokenKindView::String(Seq::empty()), line: st.line },
                    in_string: true,
                    ..st
                },
                i + 1,
            )
        }
    } else if is_digit(ch) {
        if st.current.kind is Number || st.current.kind is Ident {
            go(LexState { current: extend(st.current, ch), ..st }, i + 1)
        } else {
            go(
                LexState {
                    current: TokenView { kind: TokenKindView::Number(seq![ch]), line: st.line },
                    ..st
                },
                i + 1,
            )
        }
    } else if letter {
        if st.current.kind is Ident {
            go(LexState { current: extend(st.current, ch), ..st }, i + 1)
        } else {
            go(
                LexState {
                    current: TokenView { kind: TokenKindView::Ident(seq![ch]), line: st.line },
                    ..st
                },
                i + 1,
            )
        }
    } else {
        go(st, i + 1)
    }
}

/// A step of the scanner on the character at place `i`, of which `letter`
/// says whether it is alphabetic and `letter_or_digit` whether it is
/// alphabetic or numeric.
pub open spec fn step_given(
    st: LexState,
    chars: Seq<char>,
    i: nat,
    letter: bool,
    letter_or_digit: bool,
) -> Step {
    let ch = chars[i as int];
    let counted = if ch == '\n' {
        LexState { line: bump(st.line, usize::MAX as nat), ..st }
    } else {
        st
    };
    if counted.level > 0 {
        comment_step(counted, chars, i, ch)
    } else if counted.in_string && ch != '\'' && ch != '"' {
        go(LexState { current: extend(counted.current, ch), ..counted }, i + 1)
    } else {
        let after_number = if counted.current.kind is Number && !(is_digit(ch) || ch == '_') {
            flush(counted)
        } else {
            counted
        };
        let after_ident = if after_number.current.kind is Ident && !(letter_or_digit || ch
            == '_') {
            flush(after_number)
        } else {
            after_number
        };
        symbol_step(after_ident, chars, i, ch, letter)
    }
}

/// A step of the scanner on the character at place `i`, which std tells
/// apart as a letter or not.
pub open spec fn lex_step(st: LexState, chars: Seq<char>, i: nat) -> Step {
    step_given(st, chars, i, alphabetic(chars[i as int]), alphanumeric(chars[i as int]))
}

/// The state after the characters from place `i` on are read. At the end of
/// the line the token being built, if any, is added.
pub open spec fn lex_from(st: LexState, chars: Seq<char>, i: nat) -> LexState
    decreases chars.len() - i,
{
    if i >= chars.len() {
        if st.current.kind != TokenKindView::EOL {
            LexState { tokens: st.tokens.push(st.current), ..st }
        } else {
            st
        }
    } else {
        let step = lex_step(st, chars, i);
        if step.stop || step.next <= i {
            step.state
        } else {
            lex_from(step.state, chars, step.next)
        }
    }
}

/// The state after a line is read: the tokens with those of the line added,
/// and none being built.
pub open spec fn lex_line_spec(st: LexState, chars: Seq<char>) -> LexState {
    LexState { current: no_token(), ..lex_from(LexState { current: no_token(), ..st }, chars, 0) }
}

/// The state after the lines from `k` on are read. A line that ends outside
/// strings and comments gets an end-of-line token.
pub open spec fn lex_lines(st: LexState, lines: Seq<Seq<char>>, k: nat) -> LexState
    decreases lines.len() - k,
{
    if k >= lines.len() {
        st
    } else {
        let read = lex_line_spec(st, lines[k as int]);
        let ended = if !read.in_string && read.level == 0 {
            with_token(read, TokenKindView::EOL)
        } else {
            read
        };
        lex_lines(LexState { line: bump(ended.line, usize::MAX as nat), ..ended }, lines, k + 1)
    }
}

/// The state in which the scanner starts: on line 1, outside strings and
/// comments.
pub open spec fn lex_start() -> LexState {
    LexState { tokens: Seq::empty(), current: no_token(), line: 1, in_string: false, level: 0 }
}

/// The tokens of a source text: those of its lines and the end of the file.
/// A string left open is refused.
pub open spec fn lex_spec(st: LexState, lines: Seq<Seq<char>>) -> Result<Seq<TokenView>, Error> {
    let read = lex_lines(st, lines, 0);
    if read.in_string {
        Err(Error::Lexer(LexError::UnclosedString))
    } else {
        Ok(with_token(read, TokenKindView::EOF).tokens)
    }
}

/// The scanner.
#[derive(Debug)]
pub struct Lexer {
    line: usize,
    in_string: bool,
    comment_nest_lvl: u32,
}

impl Lexer {
    /// The number of the line the scanner is at.
    pub closed spec fn at_line(&self) -> nat {
        self.line as nat
    }

    /// Whether the scanner is inside a string or character.
    pub closed spec fn inside_string(&self) -> bool {
        self.in_string
    }

    /// How deep inside comments the scanner is.
    pub closed spec fn comment_depth(&self) -> nat {
        self.comment_nest_lvl as nat
    }

    /// The state of the scanner with the given tokens and the token being
    /// built.
    pub open spec fn state_with(&self, tokens: Seq<TokenView>, current: TokenView) -> LexState {
        LexState {
            tokens,
            current,
            line: self.at_line(),
            in_string: self.inside_string(),
            level: self.comment_depth(),
        }
    }

    /// The state of the scanner with the given tokens and none being built.
    pub open spec fn state(&self, tokens: Seq<TokenView>) -> LexState {
        self.state_with(tokens, no_token())
    }

    /// A scanner at the start of a source text.
    pub fn new() -> (r: Self)
        ensures
            r.state(Seq::empty()) == lex_start(),
    {
        Lexer { line: 1, in_string: false, comment_nest_lvl: 0 }
    }

    /// Adds a token of the given kind on the line the scanner is at.
    pub fn add_token(&self, tokens: &mut Vec<Token>, kind: TokenKind)
        ensures
            self.state(tokens_view(final(tokens)@)) == with_token(
                self.state(tokens_view(old(tokens)@)),
                kind@,
            ),
    {
        let token = Token::new(kind, self.line);
        tokens.push(token);
        assert(tokens_view(tokens@) =~= tokens_view(old(tokens)@).push(token@));
    }
}

fn one_char(ch: char) -> (r: String)
    ensures
        r@ == seq![ch],
{
    let mut text = String::new();
    push_char(&mut text, ch);
    assert(text@ =~= seq![ch]);
    text
}

fn char_of(chars: &Vec<char>, i: usize) -> (r: Option<char>)
    ensures
        r == char_at(chars@, i as nat),
{
    if i < chars.len() {
        Some(chars[i])
    } else {
        None
    }
}

fn is_some_char(c: Option<char>, ch: char) -> (b: bool)
    ensures
        b == (c == Some(ch)),
{
    match c {
        Some(x) => x == ch,
        None => false,
    }
}

fn is_end_of_line(kind: &TokenKind) -> (b: bool)
    ensures
        b == (kind@ == TokenKindView::EOL),
{
    match kind {
        TokenKind::EOL => true,
        _ => false,
    }
}

fn is_number(kind: &TokenKind) -> (b: bool)
    ensures
        b == (kind@ is Number),
{
    match kind {
        TokenKind::Number(_) => true,
        _ => false,
    }
}

fn is_ident(kind: &TokenKind) -> (b: bool)
    ensures
        b == (kind@ is Ident),
{
    match kind {
        TokenKind::Ident(_) => true,
        _ => false,
    }
}

fn is_char(kind: &TokenKind) -> (b: bool)
    ensures
        b == (kind@ is Char),
{
    match kind {
        TokenKind::Char(_) => true,
        _ => false,
    }
}

fn is_string(kind: &TokenKind) -> (b: bool)
    ensures
        b == (kind@ is String),
{
    match kind {
        TokenKind::String(_) => true,
        _ => false,
    }
}

/// The kind of the token that a character on its own stands for.
pub open spec fn single_kind(ch: char) -> Option<TokenKindView> {
    if ch == '+' {
        Some(TokenKindView::Plus)
    } else if ch == '-' {
        Some(TokenKindView::Minus)
    } else if ch == '*' {
        Some(TokenKindView::Star)
    } else if ch == '^' {
        Some(TokenKindView::Caret)
    } else if ch == '~' {
        Some(TokenKindView::Tilde)
    } else if ch == '\\' {
        Some(TokenKindView::BackSlash)
    } else if ch == '(' {
        Some(TokenKindView::OpenParen)
    } else if ch == ')' {
        Some(TokenKindView::CloseParen)
    } else if ch == '[' {
        Some(TokenKindView::OpenBracket)
    } else if ch == ']' {
        Some(TokenKindView::CloseBracket)
    } else if ch == '{' {
        Some(TokenKindView::OpenBrace)
    } else if ch == '}' {
        Some(TokenKindView::CloseBrace)
    } else if ch == ',' {
        Some(TokenKindView::Comma)
    } else if ch == '.' {
        Some(TokenKindView::Dot)
    } else if ch == ';' {
        Some(TokenKindView::Semicolon)
    } else if ch == ':' {
        Some(TokenKindView::Colon)
    } else if ch == '#' {
        Some(TokenKindView::Hash)
    } else if ch == '\n' {
        Some(TokenKindView::EOL)
    } else {
        None
    }
}

fn single(ch: char) -> (r: Option<TokenKind>)
    ensures
        match r {
            Some(k) => single_kind(ch) == Some(k@),
            None => single_kind(ch) is None,
        },
{
    if ch == '+' {
        Some(TokenKind::Plus)
    } else if ch == '-' {
        Some(TokenKind::Minus)
    } else if ch == '*' {
        Some(TokenKind::Star)
    } else if ch == '^' {
        Some(TokenKind::Caret)
    } else if ch == '~' {
        Some(TokenKind::Tilde)
    } else if ch == '\\' {
        Some(TokenKind::BackSlash)
    } else if ch == '(' {
        Some(TokenKind::OpenParen)
    } else if ch == ')' {
        Some(TokenKind::CloseParen)
    } else if ch == '[' {
        Some(TokenKind::OpenBracket)
    } else if ch == ']' {
        Some(TokenKind::CloseBracket)
    } else if ch == '{' {
        Some(TokenKind::OpenBrace)
    } else if ch == '}' {
        Some(TokenKind::CloseBrace)
    } else if ch == ',' {
        Some(TokenKind::Comma)
    } else if ch == '.' {
        Some(TokenKind::Dot)
    } else if ch == ';' {
        Some(TokenKind::Semicolon)
    } else if ch == ':' {
        Some(TokenKind::Colon)
    } else if ch == '#' {
        Some(TokenKind::Hash)
    } else if ch == '\n' {
        Some(TokenKind::EOL)
    } else {
        None
    }
}

/// A character that stands for a token on its own gives that token.
pub proof fn lemma_single_symbols(st: LexState, chars: Seq<char>, i: nat, ch: char, letter: bool)
    requires
        single_kind(ch) is Some,
    ensures
        symbol_step(st, chars, i, ch, letter) == go(
            with_token(st, single_kind(ch)->Some_0),
            i + 1,
        ),
{
}

impl Lexer {
    fn deeper(&mut self)
        ensures
            final(self).line == old(self).line,
            final(self).in_string == old(self).in_string,
            final(self).comment_nest_lvl == bump(
                old(self).comment_nest_lvl as nat,
                u32::MAX as nat,
            ),
    {
        if self.comment_nest_lvl < u32::MAX {
            self.comment_nest_lvl += 1;
        }
    }

    fn flush_token(&self, tokens: &mut Vec<Token>, current: &mut Token)
        ensures
            self.state_with(tokens_view(final(tokens)@), final(current)@) == flush(
                self.state_with(tokens_view(old(tokens)@), old(current)@),
            ),
    {
        let mut token = Token::default();
        std::mem::swap(current, &mut token);
        tokens.push(token);
        assert(tokens_view(tokens@) =~= tokens_view(old(tokens)@).push(old(current)@));
    }

    fn push_token(&self, tokens: &mut Vec<Token>, kind: TokenKind, current: &Token)
        ensures
            self.state_with(tokens_view(final(tokens)@), current@) == with_token(
                self.state_with(tokens_view(old(tokens)@), current@),
                kind@,
            ),
    {
        let token = Token::new(kind, self.line);
        tokens.push(token);
        assert(tokens_view(tokens@) =~= tokens_view(old(tokens)@).push(token@));
    }

    fn step_comment(&mut self, chars: &Vec<char>, i: usize, ch: char) -> (next: usize)
        requires
            i < chars.len(),
            old(self).comment_nest_lvl > 0,
        ensures
            forall|tokens: Seq<TokenView>, current: TokenView|
                #![trigger final(self).state_with(tokens, current)]
                go(final(self).state_with(tokens, current), next as nat) == comment_step(
                    old(self).state_with(tokens, current),
                    chars@,
                    i as nat,
                    ch,
                ),
            i < next <= chars.len(),
    {
        let after = char_of(chars, i + 1);
        if ch == '*' {
            if is_some_char(after, '/') {
                self.comment_nest_lvl -= 1;
                i + 2
            } else {
                i + 1
            }
        } else if ch == '/' {
            if is_some_char(after, '*') {
                self.deeper();
                i + 2
            } else {
                i + 1
            }
        } else {
            i + 1
        }
    }

    fn step_symbol(
        &mut self,
        tokens: &mut Vec<Token>,
        current: &mut Token,
        chars: &Vec<char>,
        i: usize,
        ch: char,
        letter: bool,
    ) -> (r: (usize, bool))
        requires
            i < chars.len(),
        ensures
            (Step {
                state: final(self).state_with(tokens_view(final(tokens)@), final(current)@),
                next: r.0 as nat,
                stop: r.1,
            }) == symbol_step(
                old(self).state_with(tokens_view(old(tokens)@), old(current)@),
                chars@,
                i as nat,
                ch,
                letter,
            ),
            i < r.0 <= chars.len(),
    {
        let after = char_of(chars, i + 1);
        let ghost st = self.state_with(tokens_view(tokens@), current@);
        match single(ch) {
            Some(kind) => {
                proof {
                    lemma_single_symbols(st, chars@, i as nat, ch, letter);
                }
                self.push_token(tokens, kind, current);
                return (i + 1, false);
            },
            None => {},
        }
        if ch == '/' {
            if is_some_char(after, '/') {
                if !is_end_of_line(current.kind()) {
                    let token = current.clone();
                    tokens.push(token);
                    assert(tokens_view(tokens@) =~= tokens_view(old(tokens)@).push(current@));
                }
                (i + 1, true)
            } else if is_some_char(after, '*') {
                if !is_end_of_line(current.kind()) {
                    self.flush_token(tokens, current);
                }
                self.deeper();
                (i + 2, false)
            } else {
                self.push_token(tokens, TokenKind::Slash, current);
                (i + 1, false)
            }
        } else if ch == '=' {
            if is_some_char(after, '=') {
                self.push_token(tokens, TokenKind::DblEq, current);
                (i + 2, false)
            } else if is_some_char(after, ':') {
                self.push_token(tokens, TokenKind::EqColon, current);
                (i + 2, false)
            } else {
                self.push_token(tokens, TokenKind::Eq, current);
                (i + 1, false)
            }
        } else if ch == '!' {
            if is_some_char(after, '=') {
                self.push_token(tokens, TokenKind::BangEq, current);
                (i + 2, false)
            } else {
                self.push_token(tokens, TokenKind::Bang, current);
                (i + 1, false)
            }
        } else if ch == '|' {
            if is_some_char(after, '|') {
                self.push_token(tokens, TokenKind::DblBar, current);
                (i + 2, false)
            } else {
                self.push_token(tokens, TokenKind::Bar, current);
                (i + 1, false)
            }
        } else if ch == '&' {
            if is_some_char(after, '&') {
                self.push_token(tokens, TokenKind::DblAmp, current);
                (i + 2, false)
            } else {
                self.push_token(tokens, TokenKind::Amp, current);
                (i + 1, false)
            }
        } else if ch == '<' {
            if is_some_char(after, '=') {
                if is_some_char(char_of(chars, i + 2), ':') {
                    self.push_token(tokens, TokenKind::LessEqColon, current);
                    (i + 3, false)
                } else {
                    self.push_token(tokens, TokenKind::LessEq, current);
                    (i + 2, false)
                }
            } else if is_some_char(after, ':') {
                self.push_token(tokens, TokenKind::LessColon, current);
                (i + 2, false)
            } else {
                self.push_token(tokens, TokenKind::Less, current);
                (i + 1, false)
            }
        } else if ch == '>' {
            if is_some_char(after, '=') {
                if is_some_char(char_of(chars, i + 2), ':') {
                    self.push_token(tokens, TokenKind::GreaterEqColon, current);
                    (i + 3, false)
                } else {
                    self.push_token(tokens, TokenKind::GreaterEq, current);
                    (i + 2, false)
                }
            } else if is_some_char(after, ':') {
                self.push_token(tokens, TokenKind::GreaterColon, current);
                (i + 2, false)
            } else {
                self.push_token(tokens, TokenKind::Greater, current);
                (i + 1, false)
            }
        } else if ch == '_' {
            if is_ident(current.kind()) || is_number(current.kind()) {
                current.append_to_lexeme(ch);
            } else {
                *current = Token::new(TokenKind::Ident(one_char('_')), self.line);
            }
            (i + 1, false)
        } else if ch == '\'' {
            if is_char(current.kind()) {
                self.flush_token(tokens, current);
                self.in_string = false;
            } else {
                *current = Token::new(TokenKind::Char(String::new()), self.line);
                self.in_string = true;
            }
            (i + 1, false)
        } else if ch == '"' {
            if is_string(current.kind()) {
                self.flush_token(tokens, current);
                self.in_string = false;
            } else {
                *current = Token::new(TokenKind::String(String::new()), self.line);
                self.in_string = true;
            }
            (i + 1, false)
        } else if digit(ch) {
            if is_number(current.kind()) || is_ident(current.kind()) {
                current.append_to_lexeme(ch);
            } else {
                *current = Token::new(TokenKind::Number(one_char(ch)), self.line);
            }
            (i + 1, false)
        } else if letter {
            if is_ident(current.kind()) {
                current.append_to_lexeme(ch);
            } else {
                *current = Token::new(TokenKind::Ident(one_char(ch)), self.line);
            }
            (i + 1, false)
        } else {
            (i + 1, false)
        }
    }
}

impl Lexer {
    /// One step of the scanner, on the character at place `i` of a line.
    /// `letter` says whether that character is alphabetic, `letter_or_digit`
    /// whether it is alphabetic or numeric. `current` is the token being
    /// built; finished tokens are added to `tokens`. Gives the place of the
    /// next character to read, and whether the rest of the line is passed
    /// over.
    pub fn step(
        &mut self,
        tokens: &mut Vec<Token>,
        current: &mut Token,
        chars: &Vec<char>,
        i: usize,
        letter: bool,
        letter_or_digit: bool,
    ) -> (r: (usize, bool))
        requires
            i < chars.len(),
        ensures
            (Step {
                state: final(self).state_with(tokens_view(final(tokens)@), final(current)@),
                next: r.0 as nat,
                stop: r.1,
            }) == step_given(
                old(self).state_with(tokens_view(old(tokens)@), old(current)@),
                chars@,
                i as nat,
                letter,
                letter_or_digit,
            ),
            i < r.0 <= chars.len(),
    {
        let ch = chars[i];
        if ch == '\n' && self.line < usize::MAX {
            self.line += 1;
        }
        if self.comment_nest_lvl > 0 {
            let next = self.step_comment(chars, i, ch);
            (next, false)
        } else if self.in_string && ch != '\'' && ch != '"' {
            current.append_to_lexeme(ch);
            (i + 1, false)
        } else {
            if is_number(current.kind()) && !(digit(ch) || ch == '_') {
                self.flush_token(tokens, current);
            }
            if is_ident(current.kind()) && !(letter_or_digit || ch == '_') {
                self.flush_token(tokens, current);
            }
            self.step_symbol(tokens, current, chars, i, ch, letter)
        }
    }

    /// Reads a line: its tokens are added to `tokens`.
    pub fn lex_line(&mut self, tokens: &mut Vec<Token>, line: &str)
        ensures
            final(self).state(tokens_view(final(tokens)@)) == lex_line_spec(
                old(self).state(tokens_view(old(tokens)@)),
                line@,
            ),
    {
        let chars = chars_of(line);
        let mut current = Token::default();
        let mut i: usize = 0;
        let ghost start = self.state_with(tokens_view(tokens@), current@);
        let mut stopped = false;
        while i < chars.len() && !stopped
            invariant
                i <= chars.len(),
                chars@ == line@,
                !stopped ==> lex_from(start, chars@, 0) == lex_from(
                    self.state_with(tokens_view(tokens@), current@),
                    chars@,
                    i as nat,
                ),
                stopped ==> lex_from(start, chars@, 0) == self.state_with(
                    tokens_view(tokens@),
                    current@,
                ),
            decreases chars.len() - i, !stopped as int,
        {
            let ch = chars[i];
            let letter = is_alphabetic(ch);
            let letter_or_digit = is_alphanumeric(ch);
            let (next, stop) = self.step(tokens, &mut current, &chars, i, letter, letter_or_digit);
            if stop {
                stopped = true;
            } else {
                i = next;
            }
        }
        if !stopped && !is_end_of_line(current.kind()) {
            let ghost pending = current@;
            let ghost held = tokens_view(tokens@);
            tokens.push(current);
            assert(tokens_view(tokens@) =~= held.push(pending));
        }
    }
}

impl Lexer {
    /// Reads the lines of a source text. Gives its tokens, the last of which
    /// is the end of the file; a string left open is refused.
    pub fn lex(&mut self, lines: &Vec<String>) -> (r: Result<Vec<Token>, Error>)
        ensures
            match r {
                Ok(tokens) => lex_spec(old(self).state(Seq::empty()), lines_view(lines@))
                    == Ok::<Seq<TokenView>, Error>(tokens_view(tokens@)),
                Err(err) => lex_spec(old(self).state(Seq::empty()), lines_view(lines@))
                    == Err::<Seq<TokenView>, Error>(err),
            },
    {
        let mut tokens: Vec<Token> = Vec::new();
        assert(tokens_view(tokens@) =~= Seq::empty());
        let mut k: usize = 0;
        while k < lines.len()
            invariant
                k <= lines.len(),
                lex_lines(old(self).state(Seq::empty()), lines_view(lines@), 0) == lex_lines(
                    self.state(tokens_view(tokens@)),
                    lines_view(lines@),
                    k as nat,
                ),
            decreases lines.len() - k,
        {
            self.lex_line(&mut tokens, lines[k].as_str());
            if !self.in_string && self.comment_nest_lvl == 0 {
                self.add_token(&mut tokens, TokenKind::EOL);
            }
            if self.line < usize::MAX {
                self.line += 1;
            }
            k += 1;
        }
        self.add_token(&mut tokens, TokenKind::EOF);
        if self.in_string {
            Err(Error::Lexer(LexError::UnclosedString))
        } else {
            Ok(tokens)
        }
    }
}

/// Every step of the scanner moves on by at least one character, so that a
/// line is never left before its end but by a comment.
pub proof fn lemma_step_advances(st: LexState, chars: Seq<char>, i: nat)
    requires
        i < chars.len(),
    ensures
        i < lex_step(st, chars, i).next <= chars.len(),
        forall|letter: bool, letter_or_digit: bool|
            i < (#[trigger] step_given(st, chars, i, letter, letter_or_digit)).next <= chars.len(),
{
}

/// The tokens of a source text end with the end of the file.
pub proof fn lemma_tokens_end_with_the_file(st: LexState, lines: Seq<Seq<char>>)
    requires
        lex_spec(st, lines) is Ok,
    ensures
        lex_spec(st, lines)->Ok_0.len() > 0,
        lex_spec(st, lines)->Ok_0.last().kind == TokenKindView::EOF,
{
}

} // verus!
