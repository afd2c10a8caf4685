//! Tokens: the input of the parser, as produced by a lexer.
use vstd::prelude::*;

verus! {

/// Reserved words of the language.
#[derive(Debug, Clone, Copy, PartialEq, Eq, Structural)]
pub enum Keyword {
    /// `if`
    If,
    /// `else`
    Else,
    /// `while`
    While,
    /// `return`
    Return,
    /// `class`
    Class,
    /// `static`
    Static,
    /// `self`, the current instance.
    SelfValue,
    /// `Self`, the type of the current instance.
    SelfType,
}

/// The kind of a token, with the value it carries.
///
/// A float literal carries the IEEE-754 bit pattern of its `f64` value.
#[derive(Debug, Clone, PartialEq)]
pub enum TokenKind {
    /// An integer literal.
    Integer(i64),
    /// A float literal, as the bits of an `f64`.
    Float(u64),
    /// A string literal (escapes already resolved).
    String(String),
    /// `true` or `false`.
    Boolean(bool),
    /// `+`
    Plus,
    /// `-`
    Minus,
    /// `*`
    Asterisk,
    /// `/`
    Slash,
    /// `(`
    LeftParen,
    /// `)`
    RightParen,
    /// `{`
    LeftBrace,
    /// `}`
    RightBrace,
    /// `,`
    Comma,
    /// `.`
    Dot,
    /// `=`
    Equals,
    /// `==`
    DoubleEquals,
    /// `!=`
    NotEquals,
    /// `<`
    LessThan,
    /// `>`
    GreaterThan,
    /// `<=`
    LessThanOrEqual,
    /// `>=`
    GreaterThanOrEqual,
    /// `&&`
    And,
    /// `||`
    Or,
    /// `!`
    Bang,
    /// `;`
    Semicolon,
    /// A name.
    Identifier(String),
    /// A reserved word.
    Keyword(Keyword),
    /// The end of the source.
    EndOfFile,
}

/// The kind of a token without its value; used to say what the parser expected.
#[derive(Debug, Clone, Copy, PartialEq, Eq, Structural)]
pub enum TokenClass {
    Integer,
    Float,
    String,
    Boolean,
    Plus,
    Minus,
    Asterisk,
    Slash,
    LeftParen,
    RightParen,
    LeftBrace,
    RightBrace,
    Comma,
    Dot,
    Equals,
    DoubleEquals,
    NotEquals,
    LessThan,
    GreaterThan,
    LessThanOrEqual,
    GreaterThanOrEqual,
    And,
    Or,
    Bang,
    Semicolon,
    Identifier,
    Keyword,
    EndOfFile,
}

/// A token with the line and column at which it starts.
#[derive(Debug, Clone, PartialEq)]
pub struct Token {
    /// What the token is.
    pub kind: TokenKind,
    /// The line of its first character.
    pub line: usize,
    /// The column of its first character.
    pub column: usize,
}

impl Token {
    /// Creates a token of the given kind at the given position.
    pub fn new(kind: TokenKind, line: usize, column: usize) -> (r: Token)
        ensures
            r == (Token { kind, line, column }),
    {
        Token { kind, line, column }
    }
}

/// The class of a token kind.
pub open spec fn class_of(k: TokenKind) -> TokenClass {
    match k {
        TokenKind::Integer(_) => TokenClass::Integer,
        TokenKind::Float(_) => TokenClass::Float,
        TokenKind::String(_) => TokenClass::String,
        TokenKind::Boolean(_) => TokenClass::Boolean,
        TokenKind::Plus => TokenClass::Plus,
        TokenKind::Minus => TokenClass::Minus,
        TokenKind::Asterisk => TokenClass::Asterisk,
        TokenKind::Slash => TokenClass::Slash,
        TokenKind::LeftParen => TokenClass::LeftParen,
        TokenKind::RightParen => TokenClass::RightParen,
        TokenKind::LeftBrace => TokenClass::LeftBrace,
        TokenKind::RightBrace => TokenClass::RightBrace,
        TokenKind::Comma => TokenClass::Comma,
        TokenKind::Dot => TokenClass::Dot,
        TokenKind::Equals => TokenClass::Equals,
        TokenKind::DoubleEquals => TokenClass::DoubleEquals,
        TokenKind::NotEquals => TokenClass::NotEquals,
        TokenKind::LessThan => TokenClass::LessThan,
        TokenKind::GreaterThan => TokenClass::GreaterThan,
        TokenKind::LessThanOrEqual => TokenClass::LessThanOrEqual,
        TokenKind::GreaterThanOrEqual => TokenClass::GreaterThanOrEqual,
        TokenKind::And => TokenClass::And,
        TokenKind::Or => TokenClass::Or,
        TokenKind::Bang => TokenClass::Bang,
        TokenKind::Semicolon => TokenClass::Semicolon,
        TokenKind::Identifier(_) => TokenClass::Identifier,
        TokenKind::Keyword(_) => TokenClass::Keyword,
        TokenKind::EndOfFile => TokenClass::EndOfFile,
    }
}

impl TokenKind {
    /// The class of this token kind.
    pub fn class(&self) -> (r: TokenClass)
        ensures
            r == class_of(*self),
    {
        match self {
            TokenKind::Integer(_) => TokenClass::Integer,
            TokenKind::Float(_) => TokenClass::Float,
            TokenKind::String(_) => TokenClass::String,
            TokenKind::Boolean(_) => TokenClass::Boolean,
            TokenKind::Plus => TokenClass::Plus,
            TokenKind::Minus => TokenClass::Minus,
            TokenKind::Asterisk => TokenClass::Asterisk,
            TokenKind::Slash => TokenClass::Slash,
            TokenKind::LeftParen => TokenClass::LeftParen,
            TokenKind::RightParen => TokenClass::RightParen,
            TokenKind::LeftBrace => TokenClass::LeftBrace,
            TokenKind::RightBrace => TokenClass::RightBrace,
            TokenKind::Comma => TokenClass::Comma,
            TokenKind::Dot => TokenClass::Dot,
            TokenKind::Equals => TokenClass::Equals,
            TokenKind::DoubleEquals => TokenClass::DoubleEquals,
            TokenKind::NotEquals => TokenClass::NotEquals,
            TokenKind::LessThan => TokenClass::LessThan,
            TokenKind::GreaterThan => TokenClass::GreaterThan,
            TokenKind::LessThanOrEqual => TokenClass::LessThanOrEqual,
            TokenKind::GreaterThanOrEqual => TokenClass::GreaterThanOrEqual,
            TokenKind::And => TokenClass::And,
            TokenKind::Or => TokenClass::Or,
            TokenKind::Bang => TokenClass::Bang,
            TokenKind::Semicolon => TokenClass::Semicolon,
            TokenKind::Identifier(_) => TokenClass::Identifier,
            TokenKind::Keyword(_) => TokenClass::Keyword,
            TokenKind::EndOfFile => TokenClass::EndOfFile,
        }
    }

    /// An equal copy of this token kind.
    pub fn duplicate(&self) -> (r: TokenKind)
        ensures
            r == *self,
    {
        match self {
            TokenKind::Integer(v) => TokenKind::Integer(*v),
            TokenKind::Float(v) => TokenKind::Float(*v),
            TokenKind::String(s) => TokenKind::String(s.clone()),
            TokenKind::Boolean(b) => TokenKind::Boolean(*b),
            TokenKind::Plus => TokenKind::Plus,
            TokenKind::Minus => TokenKind::Minus,
            TokenKind::Asterisk => TokenKind::Asterisk,
            TokenKind::Slash => TokenKind::Slash,
            TokenKind::LeftParen => TokenKind::LeftParen,
            TokenKind::RightParen => TokenKind::RightParen,
            TokenKind::LeftBrace => TokenKind::LeftBrace,
            TokenKind::RightBrace => TokenKind::RightBrace,
            TokenKind::Comma => TokenKind::Comma,
            TokenKind::Dot => TokenKind::Dot,
            TokenKind::Equals => TokenKind::Equals,
            TokenKind::DoubleEquals => TokenKind::DoubleEquals,
            TokenKind::NotEquals => TokenKind::NotEquals,
            TokenKind::LessThan => TokenKind::LessThan,
            TokenKind::GreaterThan => TokenKind::GreaterThan,
            TokenKind::LessThanOrEqual => TokenKind::LessThanOrEqual,
            TokenKind::GreaterThanOrEqual => TokenKind::GreaterThanOrEqual,
            TokenKind::And => TokenKind::And,
            TokenKind::Or => TokenKind::Or,
            TokenKind::Bang => TokenKind::Bang,
            TokenKind::Semicolon => TokenKind::Semicolon,
            TokenKind::Identifier(s) => TokenKind::Identifier(s.clone()),
            TokenKind::Keyword(k) => TokenKind::Keyword(*k),
            TokenKind::EndOfFile => TokenKind::EndOfFile,
        }
    }
}

} // verus!
