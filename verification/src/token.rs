//! Tokens: the units the scanner produces and the parser consumes.

use crate::text::debug_quote;
use crate::text::debug_quoted;
use vstd::prelude::*;

verus! {
/// What a token is: a keyword, a punctuation mark, an operator, a word, a
/// numeric literal, a string literal, or the end of the input.
#[derive(Debug, Clone, PartialEq)]
pub enum TokenType {
    Func, End, Return, If, Else, While, For, Try,
    Catch, Raise, Route, Json, Auto, ErrorCode, Public, Private,
    Import, From, Int, Float, Double, Txt, Bool, Get,
    Post, Put, Delete, Plus, Minus, Star, Slash, Percent,
    Equal, EqualEqual, NotEqual, Less, Greater, LessEqual, GreaterEqual, And,
    Or, Not, LeftParen, RightParen, LeftBrace, RightBrace, LeftBracket, RightBracket,
    Comma, Dot, Colon, Arrow,
    Identifier(String),
    Number(String),
    String(String),
    Eof,
}

/// A token with the place where it starts: line and column, both counted from 1.
#[derive(Debug, Clone)]
pub struct Token {
    pub token_type: TokenType,
    pub line: usize,
    pub column: usize,
}

/// The mathematical value of a [`TokenType`]: the same alternatives, with the
/// text of a word or literal as a sequence of characters.
pub enum TokenKind {
    Func, End, Return, If, Else, While, For, Try,
    Catch, Raise, Route, Json, Auto, ErrorCode, Public, Private,
    Import, From, Int, Float, Double, Txt, Bool, Get,
    Post, Put, Delete, Plus, Minus, Star, Slash, Percent,
    Equal, EqualEqual, NotEqual, Less, Greater, LessEqual, GreaterEqual, And,
    Or, Not, LeftParen, RightParen, LeftBrace, RightBrace, LeftBracket, RightBracket,
    Comma, Dot, Colon, Arrow,
    Identifier(Seq<char>),
    Number(Seq<char>),
    String(Seq<char>),
    Eof,
}

/// The mathematical value of a [`Token`].
pub struct TokenModel {
    pub kind: TokenKind,
    pub line: nat,
    pub column: nat,
}

impl View for TokenType {
    type V = TokenKind;

    open spec fn view(&self) -> TokenKind {
        match self {
            TokenType::Func => TokenKind::Func,
            TokenType::End => TokenKind::End,
            TokenType::Return => TokenKind::Return,
            TokenType::If => TokenKind::If,
            TokenType::Else => TokenKind::Else,
            TokenType::While => TokenKind::While,
            TokenType::For => TokenKind::For,
            TokenType::Try => TokenKind::Try,
            TokenType::Catch => TokenKind::Catch,
            TokenType::Raise => TokenKind::Raise,
            TokenType::Route => TokenKind::Route,
            TokenType::Json => TokenKind::Json,
            TokenType::Auto => TokenKind::Auto,
            TokenType::ErrorCode => TokenKind::ErrorCode,
            TokenType::Public => TokenKind::Public,
            TokenType::Private => TokenKind::Private,
            TokenType::Import => TokenKind::Import,
            TokenType::From => TokenKind::From,
            TokenType::Int => TokenKind::Int,
            TokenType::Float => TokenKind::Float,
            TokenType::Double => TokenKind::Double,
            TokenType::Txt => TokenKind::Txt,
            TokenType::Bool => TokenKind::Bool,
            TokenType::Get => TokenKind::Get,
            TokenType::Post => TokenKind::Post,
            TokenType::Put => TokenKind::Put,
            TokenType::Delete => TokenKind::Delete,
            TokenType::Plus => TokenKind::Plus,
            TokenType::Minus => TokenKind::Minus,
            TokenType::Star => TokenKind::Star,
            TokenType::Slash => TokenKind::Slash,
            TokenType::Percent => TokenKind::Percent,
            TokenType::Equal => TokenKind::Equal,
            TokenType::EqualEqual => TokenKind::EqualEqual,
            TokenType::NotEqual => TokenKind::NotEqual,
            TokenType::Less => TokenKind::Less,
            TokenType::Greater => TokenKind::Greater,
            TokenType::LessEqual => TokenKind::LessEqual,
            TokenType::GreaterEqual => TokenKind::GreaterEqual,
            TokenType::And => TokenKind::And,
            TokenType::Or => TokenKind::Or,
            TokenType::Not => TokenKind::Not,
            TokenType::LeftParen => TokenKind::LeftParen,
            TokenType::RightParen => TokenKind::RightParen,
            TokenType::LeftBrace => TokenKind::LeftBrace,
            TokenType::RightBrace => TokenKind::RightBrace,
            TokenType::LeftBracket => TokenKind::LeftBracket,
            TokenType::RightBracket => TokenKind::RightBracket,
            TokenType::Comma => TokenKind::Comma,
            TokenType::Dot => TokenKind::Dot,
            TokenType::Colon => TokenKind::Colon,
            TokenType::Arrow => TokenKind::Arrow,
            TokenType::Identifier(s) => TokenKind::Identifier(s@),
            TokenType::Number(s) => TokenKind::Number(s@),
            TokenType::String(s) => TokenKind::String(s@),
            TokenType::Eof => TokenKind::Eof,
        }
    }
}

impl View for Token {
    type V = TokenModel;

    open spec fn view(&self) -> TokenModel {
        TokenModel { kind: self.token_type@, line: self.line as nat, column: self.column as nat }
    }
}

/// The kinds of a sequence of tokens, places left out.
pub open spec fn kinds_of(tokens: Seq<Token>) -> Seq<TokenKind> {
    tokens.map_values(|t: Token| t.token_type@)
}

impl TokenKind {
    /// The name of the alternative, as written in the enum.
    pub open spec fn name(self) -> Seq<char> {
        match self {
            TokenKind::Func => "Func"@,
            TokenKind::End => "End"@,
            TokenKind::Return => "Return"@,
            TokenKind::If => "If"@,
            TokenKind::Else => "Else"@,
            TokenKind::While => "While"@,
            TokenKind::For => "For"@,
            TokenKind::Try => "Try"@,
            TokenKind::Catch => "Catch"@,
            TokenKind::Raise => "Raise"@,
            TokenKind::Route => "Route"@,
            TokenKind::Json => "Json"@,
            TokenKind::Auto => "Auto"@,
            TokenKind::ErrorCode => "ErrorCode"@,
            TokenKind::Public => "Public"@,
            TokenKind::Private => "Private"@,
            TokenKind::Import => "Import"@,
            TokenKind::From => "From"@,
            TokenKind::Int => "Int"@,
            TokenKind::Float => "Float"@,
            TokenKind::Double => "Double"@,
            TokenKind::Txt => "Txt"@,
            TokenKind::Bool => "Bool"@,
            TokenKind::Get => "Get"@,
            TokenKind::Post => "Post"@,
            TokenKind::Put => "Put"@,
            TokenKind::Delete => "Delete"@,
            TokenKind::Plus => "Plus"@,
            TokenKind::Minus => "Minus"@,
            TokenKind::Star => "Star"@,
            TokenKind::Slash => "Slash"@,
            TokenKind::Percent => "Percent"@,
            TokenKind::Equal => "Equal"@,
            TokenKind::EqualEqual => "EqualEqual"@,
            TokenKind::NotEqual => "NotEqual"@,
            TokenKind::Less => "Less"@,
            TokenKind::Greater => "Greater"@,
            TokenKind::LessEqual => "LessEqual"@,
            TokenKind::GreaterEqual => "GreaterEqual"@,
            TokenKind::And => "And"@,
            TokenKind::Or => "Or"@,
            TokenKind::Not => "Not"@,
            TokenKind::LeftParen => "LeftParen"@,
            TokenKind::RightParen => "RightParen"@,
            TokenKind::LeftBrace => "LeftBrace"@,
            TokenKind::RightBrace => "RightBrace"@,
            TokenKind::LeftBracket => "LeftBracket"@,
            TokenKind::RightBracket => "RightBracket"@,
            TokenKind::Comma => "Comma"@,
            TokenKind::Dot => "Dot"@,
            TokenKind::Colon => "Colon"@,
            TokenKind::Arrow => "Arrow"@,
            TokenKind::Identifier(_) => "Identifier"@,
            TokenKind::Number(_) => "Number"@,
            TokenKind::String(_) => "String"@,
            TokenKind::Eof => "Eof"@,
        }
    }

    /// The kind with the text of a word or literal blanked out, so that two
    /// kinds of one alternative become equal.
    pub open spec fn shape(self) -> TokenKind {
        match self {
            TokenKind::Identifier(_) => TokenKind::Identifier(Seq::empty()),
            TokenKind::Number(_) => TokenKind::Number(Seq::empty()),
            TokenKind::String(_) => TokenKind::String(Seq::empty()),
            other => other,
        }
    }

    /// How the kind is shown in a message: its name, followed for a word or
    /// literal by the quoted text in parentheses.
    pub open spec fn describe(self) -> Seq<char> {
        match self {
            TokenKind::Identifier(s) | TokenKind::Number(s) | TokenKind::String(s) => self.name()
                + "("@ + debug_quoted(s) + ")"@,
            _ => self.name(),
        }
    }
}

impl TokenType {
    /// The name of the alternative.
    pub fn name(&self) -> (r: &'static str)
        ensures
            r@ == self@.name(),
    {
        match self {
            TokenType::Func => "Func",
            TokenType::End => "End",
            TokenType::Return => "Return",
            TokenType::If => "If",
            TokenType::Else => "Else",
            TokenType::While => "While",
            TokenType::For => "For",
            TokenType::Try => "Try",
            TokenType::Catch => "Catch",
            TokenType::Raise => "Raise",
            TokenType::Route => "Route",
            TokenType::Json => "Json",
            TokenType::Auto => "Auto",
            TokenType::ErrorCode => "ErrorCode",
            TokenType::Public => "Public",
            TokenType::Private => "Private",
            TokenType::Import => "Import",
            TokenType::From => "From",
            TokenType::Int => "Int",
            TokenType::Float => "Float",
            TokenType::Double => "Double",
            TokenType::Txt => "Txt",
            TokenType::Bool => "Bool",
            TokenType::Get => "Get",
            TokenType::Post => "Post",
            TokenType::Put => "Put",
            TokenType::Delete => "Delete",
            TokenType::Plus => "Plus",
            TokenType::Minus => "Minus",
            TokenType::Star => "Star",
            TokenType::Slash => "Slash",
            TokenType::Percent => "Percent",
            TokenType::Equal => "Equal",
            TokenType::EqualEqual => "EqualEqual",
            TokenType::NotEqual => "NotEqual",
            TokenType::Less => "Less",
            TokenType::Greater => "Greater",
            TokenType::LessEqual => "LessEqual",
            TokenType::GreaterEqual => "GreaterEqual",
            TokenType::And => "And",
            TokenType::Or => "Or",
            TokenType::Not => "Not",
            TokenType::LeftParen => "LeftParen",
            TokenType::RightParen => "RightParen",
            TokenType::LeftBrace => "LeftBrace",
            TokenType::RightBrace => "RightBrace",
            TokenType::LeftBracket => "LeftBracket",
            TokenType::RightBracket => "RightBracket",
            TokenType::Comma => "Comma",
            TokenType::Dot => "Dot",
            TokenType::Colon => "Colon",
            TokenType::Arrow => "Arrow",
            TokenType::Identifier(_) => "Identifier",
            TokenType::Number(_) => "Number",
            TokenType::String(_) => "String",
            TokenType::Eof => "Eof",
        }
    }

    /// Whether both are the same alternative, whatever text they carry.
    pub fn same_kind(&self, other: &TokenType) -> (r: bool)
        ensures
            r == (self@.shape() == other@.shape()),
    {
        match (self, other) {
            (TokenType::Func, TokenType::Func) => true,
            (TokenType::End, TokenType::End) => true,
            (TokenType::Return, TokenType::Return) => true,
            (TokenType::If, TokenType::If) => true,
            (TokenType::Else, TokenType::Else) => true,
            (TokenType::While, TokenType::While) => true,
            (TokenType::For, TokenType::For) => true,
            (TokenType::Try, TokenType::Try) => true,
            (TokenType::Catch, TokenType::Catch) => true,
            (TokenType::Raise, TokenType::Raise) => true,
            (TokenType::Route, TokenType::Route) => true,
            (TokenType::Json, TokenType::Json) => true,
            (TokenType::Auto, TokenType::Auto) => true,
            (TokenType::ErrorCode, TokenType::ErrorCode) => true,
            (TokenType::Public, TokenType::Public) => true,
            (TokenType::Private, TokenType::Private) => true,
            (TokenType::Import, TokenType::Import) => true,
            (TokenType::From, TokenType::From) => true,
            (TokenType::Int, TokenType::Int) => true,
            (TokenType::Float, TokenType::Float) => true,
            (TokenType::Double, TokenType::Double) => true,
            (TokenType::Txt, TokenType::Txt) => true,
            (TokenType::Bool, TokenType::Bool) => true,
            (TokenType::Get, TokenType::Get) => true,
            (TokenType::Post, TokenType::Post) => true,
            (TokenType::Put, TokenType::Put) => true,
            (TokenType::Delete, TokenType::Delete) => true,
            (TokenType::Plus, TokenType::Plus) => true,
            (TokenType::Minus, TokenType::Minus) => true,
            (TokenType::Star, TokenType::Star) => true,
            (TokenType::Slash, TokenType::Slash) => true,
            (TokenType::Percent, TokenType::Percent) => true,
            (TokenType::Equal, TokenType::Equal) => true,
            (TokenType::EqualEqual, TokenType::EqualEqual) => true,
            (TokenType::NotEqual, TokenType::NotEqual) => true,
            (TokenType::Less, TokenType::Less) => true,
            (TokenType::Greater, TokenType::Greater) => true,
            (TokenType::LessEqual, TokenType::LessEqual) => true,
            (TokenType::GreaterEqual, TokenType::GreaterEqual) => true,
            (TokenType::And, TokenType::And) => true,
            (TokenType::Or, TokenType::Or) => true,
            (TokenType::Not, TokenType::Not) => true,
            (TokenType::LeftParen, TokenType::LeftParen) => true,
            (TokenType::RightParen, TokenType::RightParen) => true,
            (TokenType::LeftBrace, TokenType::LeftBrace) => true,
            (TokenType::RightBrace, TokenType::RightBrace) => true,
            (TokenType::LeftBracket, TokenType::LeftBracket) => true,
            (TokenType::RightBracket, TokenType::RightBracket) => true,
            (TokenType::Comma, TokenType::Comma) => true,
            (TokenType::Dot, TokenType::Dot) => true,
            (TokenType::Colon, TokenType::Colon) => true,
            (TokenType::Arrow, TokenType::Arrow) => true,
            (TokenType::Identifier(_), TokenType::Identifier(_)) => true,
            (TokenType::Number(_), TokenType::Number(_)) => true,
            (TokenType::String(_), TokenType::String(_)) => true,
            (TokenType::Eof, TokenType::Eof) => true,
            _ => false,
        }
    }

    /// The token as shown in a message.
    pub fn describe(&self) -> (r: String)
        ensures
            r@ == self@.describe(),
    {
        let mut r = String::from_str(self.name());
        match self {
            TokenType::Identifier(s) | TokenType::Number(s) | TokenType::String(s) => {
                let quoted = debug_quote(s.as_str());
                r.append("(");
                r.append(quoted.as_str());
                r.append(")");
            },
            _ => {},
        }
        r
    }
}

} // verus!
