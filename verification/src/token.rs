//! The lexical vocabulary: source locations, symbols, keywords and tokens.

use vstd::prelude::*;

verus! {

/// A position in the source text: character offset, 1-based line and 1-based
/// column, all counted in decoded characters.
#[derive(PartialEq, Eq, Structural, Debug, Clone, Copy)]
pub struct Loc {
    pub offset: usize,
    pub line: usize,
    pub col: usize,
}

/// The mathematical model of a [`Loc`], with unbounded integers.
pub struct LocModel {
    pub offset: int,
    pub line: int,
    pub col: int,
}

impl View for Loc {
    type V = LocModel;

    open spec fn view(&self) -> LocModel {
        LocModel { offset: self.offset as int, line: self.line as int, col: self.col as int }
    }
}

impl Loc {
    /// The position of the very first character: offset 0, line 1, column 1.
    pub fn head() -> (r: Loc)
        ensures
            r == (Loc { offset: 0, line: 1, col: 1 }),
    {
        Self { offset: 0, line: 1, col: 1 }
    }

    pub fn new(offset: usize, line: usize, col: usize) -> (r: Loc)
        ensures
            r == (Loc { offset, line, col }),
    {
        Self { offset, line, col }
    }
}

/// The one-character punctuation tokens of the language.
#[derive(PartialEq, Eq, Structural, Debug, Clone, Copy)]
pub enum Symbol {
    Plus,
    Minus,
    Asterisk,
    Slash,
    Semicolon,
    Equal,
}

/// The reserved words of the language.
#[derive(PartialEq, Eq, Structural, Debug, Clone, Copy)]
pub enum Keyword {
    Return,
}

/// A lexical error carried inside a token, so that the parser discovers it as
/// an ordinary unexpected token.
#[derive(PartialEq, Eq, Debug)]
pub enum TokenError {
    UnexpectedChar { actual: Option<char>, expected: Option<char> },
    Message(String),
}

/// The mathematical model of a [`TokenError`].
pub enum TokenErrorModel {
    UnexpectedChar { actual: Option<char>, expected: Option<char> },
    Message(Seq<char>),
}

impl View for TokenError {
    type V = TokenErrorModel;

    open spec fn view(&self) -> TokenErrorModel {
        match self {
            TokenError::UnexpectedChar { actual, expected } => TokenErrorModel::UnexpectedChar {
                actual: *actual,
                expected: *expected,
            },
            TokenError::Message(s) => TokenErrorModel::Message(s@),
        }
    }
}

/// The kind of a lexical unit.
#[derive(PartialEq, Eq, Debug)]
pub enum TokenKind {
    Error(TokenError),
    Symbol(Symbol),
    Keyword(Keyword),
    Ident(String),
    Int(i64),
    EOF,
}

/// The mathematical model of a [`TokenKind`].
pub enum TokenKindModel {
    Error(TokenErrorModel),
    Symbol(Symbol),
    Keyword(Keyword),
    Ident(Seq<char>),
    Int(i64),
    EOF,
}

impl View for TokenKind {
    type V = TokenKindModel;

    open spec fn view(&self) -> TokenKindModel {
        match self {
            TokenKind::Error(e) => TokenKindModel::Error(e@),
            TokenKind::Symbol(s) => TokenKindModel::Symbol(*s),
            TokenKind::Keyword(k) => TokenKindModel::Keyword(*k),
            TokenKind::Ident(s) => TokenKindModel::Ident(s@),
            TokenKind::Int(v) => TokenKindModel::Int(*v),
            TokenKind::EOF => TokenKindModel::EOF,
        }
    }
}

impl TokenKind {
    /// Whether this kind is a literal; only integer literals exist so far.
    pub fn is_literal(&self) -> (r: bool)
        ensures
            r == (self@ is Int),
    {
        matches!(self, TokenKind::Int(_))
    }
}

/// One lexical unit: its kind together with the position of its first
/// character.
#[derive(PartialEq, Eq, Debug)]
pub struct Token {
    pub kind: TokenKind,
    pub loc: Loc,
}

/// The mathematical model of a [`Token`].
pub struct TokenModel {
    pub kind: TokenKindModel,
    pub loc: LocModel,
}

impl View for Token {
    type V = TokenModel;

    open spec fn view(&self) -> TokenModel {
        TokenModel { kind: self.kind@, loc: self.loc@ }
    }
}

impl Clone for TokenError {
    /// The copy carries the same model.
    fn clone(&self) -> (r: Self)
        ensures
            r@ == self@,
    {
        match self {
            TokenError::UnexpectedChar { actual, expected } => TokenError::UnexpectedChar {
                actual: *actual,
                expected: *expected,
            },
            TokenError::Message(s) => TokenError::Message(s.clone()),
        }
    }
}

impl Clone for TokenKind {
    /// The copy carries the same model.
    fn clone(&self) -> (r: Self)
        ensures
            r@ == self@,
    {
        match self {
            TokenKind::Error(e) => TokenKind::Error(e.clone()),
            TokenKind::Symbol(s) => TokenKind::Symbol(*s),
            TokenKind::Keyword(k) => TokenKind::Keyword(*k),
            TokenKind::Ident(s) => TokenKind::Ident(s.clone()),
            TokenKind::Int(v) => TokenKind::Int(*v),
            TokenKind::EOF => TokenKind::EOF,
        }
    }
}

impl Clone for Token {
    /// The copy carries the same model.
    fn clone(&self) -> (r: Self)
        ensures
            r@ == self@,
    {
        Token { kind: self.kind.clone(), loc: self.loc }
    }
}

/// The models of a sequence of tokens, in order.
pub open spec fn deep_tokens(s: Seq<Token>) -> Seq<TokenModel> {
    Seq::new(s.len(), |i: int| s[i]@)
}

impl Token {
    pub fn new(kind: TokenKind, loc: Loc) -> (r: Self)
        ensures
            r@ == (TokenModel { kind: kind@, loc: loc@ }),
    {
        Self { kind, loc }
    }

    pub fn new_symbol(sym: Symbol, loc: Loc) -> (r: Self)
        ensures
            r@ == (TokenModel { kind: TokenKindModel::Symbol(sym), loc: loc@ }),
    {
        Self::new(TokenKind::Symbol(sym), loc)
    }

    pub fn new_keyword(keyword: Keyword, loc: Loc) -> (r: Self)
        ensures
            r@ == (TokenModel { kind: TokenKindModel::Keyword(keyword), loc: loc@ }),
    {
        Self::new(TokenKind::Keyword(keyword), loc)
    }

    pub fn new_int(v: i64, loc: Loc) -> (r: Self)
        ensures
            r@ == (TokenModel { kind: TokenKindModel::Int(v), loc: loc@ }),
    {
        Self::new(TokenKind::Int(v), loc)
    }

    pub fn new_ident(s: String, loc: Loc) -> (r: Self)
        ensures
            r@ == (TokenModel { kind: TokenKindModel::Ident(s@), loc: loc@ }),
    {
        Self::new(TokenKind::Ident(s), loc)
    }

    pub fn new_error(err: TokenError, loc: Loc) -> (r: Self)
        ensures
            r@ == (TokenModel { kind: TokenKindModel::Error(err@), loc: loc@ }),
    {
        Self::new(TokenKind::Error(err), loc)
    }

    pub fn new_unexpected_char(expected: Option<char>, actual: Option<char>, loc: Loc) -> (r: Self)
        ensures
            r@ == (TokenModel {
                kind: TokenKindModel::Error(TokenErrorModel::UnexpectedChar { actual, expected }),
                loc: loc@,
            }),
    {
        Self::new_error(TokenError::UnexpectedChar { actual, expected }, loc)
    }

    pub fn new_invalid_char(c: char, loc: Loc) -> (r: Self)
        ensures
            r@ == (TokenModel {
                kind: TokenKindModel::Error(
                    TokenErrorModel::UnexpectedChar { actual: Some(c), expected: None },
                ),
                loc: loc@,
            }),
    {
        Self::new_unexpected_char(None, Some(c), loc)
    }

    pub fn new_eof(loc: Loc) -> (r: Self)
        ensures
            r@ == (TokenModel { kind: TokenKindModel::EOF, loc: loc@ }),
    {
        Self::new(TokenKind::EOF, loc)
    }
}

} // verus!
