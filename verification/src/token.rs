//! Tokens of the schema language and the error type shared by the lexer,
//! the parser and the lowering step.

use vstd::prelude::*;
use crate::span::{Positioned, Span};

verus! {

/// A failure of the lexer, the parser or the lowering step, carrying a
/// human-readable description of the offending input.
#[derive(Debug)]
pub struct SyntaxError {
    message: String,
}

impl SyntaxError {
    /// The description carried by this error.
    pub closed spec fn message_view(&self) -> Seq<char> {
        self.message@
    }

    pub fn new(message: String) -> (r: Self)
        ensures
            r.message_view() == message@,
    {
        SyntaxError { message }
    }

    /// The description carried by this error.
    pub fn message(&self) -> (r: &str)
        ensures
            r@ == self.message_view(),
    {
        self.message.as_str()
    }
}

#[derive(Debug)]
pub enum Delimiter {
    BraceOpen,
    BraceClose,
    ParenOpen,
    ParenClose,
}

#[derive(Debug)]
pub enum Comment {
    LineDoc(String),
}

/// One lexical element of the schema language.
#[derive(Debug)]
pub enum Token {
    Meta,
    Model,
    Type,
    Enum,
    Entity,
    Constructor,
    Server,
    Client,
    Required,
    Optional,
    Ident(String),
    Number(i64),
    Delimiter(Delimiter),
    Eq,
    Colon,
    Semi,
    Comma,
    Gt,
    Lt,
    Question,
    Dot,
    String(String),
    Comment(Comment),
    EOF,
}

/// The mathematical value of a `Delimiter`.
#[derive(PartialEq, Eq, Structural)]
pub enum DelimiterV {
    BraceOpen,
    BraceClose,
    ParenOpen,
    ParenClose,
}

/// The mathematical value of a `Comment`.
pub enum CommentV {
    LineDoc(Seq<char>),
}

/// The mathematical value of a `Token`: the same shape with string payloads
/// replaced by character sequences.
pub enum TokenV {
    Meta,
    Model,
    Type,
    Enum,
    Entity,
    Constructor,
    Server,
    Client,
    Required,
    Optional,
    Ident(Seq<char>),
    Number(int),
    Delimiter(DelimiterV),
    Eq,
    Colon,
    Semi,
    Comma,
    Gt,
    Lt,
    Question,
    Dot,
    String(Seq<char>),
    Comment(CommentV),
    EOF,
}

impl View for Delimiter {
    type V = DelimiterV;

    open spec fn view(&self) -> DelimiterV {
        match self {
            Delimiter::BraceOpen => DelimiterV::BraceOpen,
            Delimiter::BraceClose => DelimiterV::BraceClose,
            Delimiter::ParenOpen => DelimiterV::ParenOpen,
            Delimiter::ParenClose => DelimiterV::ParenClose,
        }
    }
}

impl View for Comment {
    type V = CommentV;

    open spec fn view(&self) -> CommentV {
        match self {
            Comment::LineDoc(s) => CommentV::LineDoc(s@),
        }
    }
}

impl View for Token {
    type V = TokenV;

    open spec fn view(&self) -> TokenV {
        match self {
            Token::Meta => TokenV::Meta,
            Token::Model => TokenV::Model,
            Token::Type => TokenV::Type,
            Token::Enum => TokenV::Enum,
            Token::Entity => TokenV::Entity,
            Token::Constructor => TokenV::Constructor,
            Token::Server => TokenV::Server,
            Token::Client => TokenV::Client,
            Token::Required => TokenV::Required,
            Token::Optional => TokenV::Optional,
            Token::Ident(s) => TokenV::Ident(s@),
            Token::Number(n) => TokenV::Number(*n as int),
            Token::Delimiter(d) => TokenV::Delimiter(d@),
            Token::Eq => TokenV::Eq,
            Token::Colon => TokenV::Colon,
            Token::Semi => TokenV::Semi,
            Token::Comma => TokenV::Comma,
            Token::Gt => TokenV::Gt,
            Token::Lt => TokenV::Lt,
            Token::Question => TokenV::Question,
            Token::Dot => TokenV::Dot,
            Token::String(s) => TokenV::String(s@),
            Token::Comment(c) => TokenV::Comment(c@),
            Token::EOF => TokenV::EOF,
        }
    }
}

/// The mathematical value of a positioned token.
pub struct PTokenV {
    pub token: TokenV,
    pub span: Span,
}

pub open spec fn ptoken_view(pt: &Positioned<Token>) -> PTokenV {
    PTokenV { token: pt.value@, span: pt.span }
}

/// The mathematical value of a token stream.
pub open spec fn ptokens_view(ts: Seq<Positioned<Token>>) -> Seq<PTokenV> {
    ts.map_values(|pt: Positioned<Token>| ptoken_view(&pt))
}

impl Clone for Delimiter {
    fn clone(&self) -> (r: Self)
        ensures
            r@ == self@,
    {
        match self {
            Delimiter::BraceOpen => Delimiter::BraceOpen,
            Delimiter::BraceClose => Delimiter::BraceClose,
            Delimiter::ParenOpen => Delimiter::ParenOpen,
            Delimiter::ParenClose => Delimiter::ParenClose,
        }
    }
}

impl Clone for Comment {
    fn clone(&self) -> (r: Self)
        ensures
            r@ == self@,
    {
        match self {
            Comment::LineDoc(s) => Comment::LineDoc(s.clone()),
        }
    }
}

impl Clone for Token {
    fn clone(&self) -> (r: Self)
        ensures
            r@ == self@,
    {
        match self {
            Token::Meta => Token::Meta,
            Token::Model => Token::Model,
            Token::Type => Token::Type,
            Token::Enum => Token::Enum,
            Token::Entity => Token::Entity,
            Token::Constructor => Token::Constructor,
            Token::Server => Token::Server,
            Token::Client => Token::Client,
            Token::Required => Token::Required,
            Token::Optional => Token::Optional,
            Token::Ident(s) => Token::Ident(s.clone()),
            Token::Number(n) => Token::Number(*n),
            Token::Delimiter(d) => Token::Delimiter(d.clone()),
            Token::Eq => Token::Eq,
            Token::Colon => Token::Colon,
            Token::Semi => Token::Semi,
            Token::Comma => Token::Comma,
            Token::Gt => Token::Gt,
            Token::Lt => Token::Lt,
            Token::Question => Token::Question,
            Token::Dot => Token::Dot,
            Token::String(s) => Token::String(s.clone()),
            Token::Comment(c) => Token::Comment(c.clone()),
            Token::EOF => Token::EOF,
        }
    }
}

} // verus!
