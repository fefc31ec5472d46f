//! Tokens and binary operators with their precedence.
use vstd::prelude::*;
use crate::keyword::Keyword;
use crate::span::{FixedTokenSpan, Span};

verus! {

/// The kind of a token, without its payload.
#[derive(PartialEq, Eq, Structural, Copy, Clone, Debug)]
pub enum TokenType {
    Ident,
    Keyword,
    BinOp,
    StrLit,
    NumLit,
    Comma, // ,
    OpenParen, // (
    ClosedParen, // )
    OpenCurly, // {
    ClosedCurly, // }
    OpenBracket, // [
    ClosedBracket, // ]
    Colon, // :
    Semi, // ;
    Apostrophe, // '
    OpenAngle, // <
    ClosedAngle, // >
    Hashtag, // #
    Star, // *
    Dot, // .
    Question, // ?
    Underscore, // _
    Arrow, // ->
    And, // &
    Or, // |
    Comment,
    EOF, // end of input
    Invalid,
}

#[derive(Debug)]
pub enum Token {
    Ident(Span, String),
    Keyword(Span, Keyword),
    BinOp(Span, BinOp),
    StrLit(Span, String),
    NumLit(Span, String),
    Comma(FixedTokenSpan<1>), // ,
    OpenParen(FixedTokenSpan<1>), // (
    ClosedParen(FixedTokenSpan<1>), // )
    OpenCurly(FixedTokenSpan<1>), // {
    ClosedCurly(FixedTokenSpan<1>), // }
    OpenBracket(FixedTokenSpan<1>), // [
    ClosedBracket(FixedTokenSpan<1>), // ]
    Colon(FixedTokenSpan<1>), // :
    Semi(FixedTokenSpan<1>), // ;
    Apostrophe(FixedTokenSpan<1>), // '
    OpenAngle(FixedTokenSpan<1>), // <
    ClosedAngle(FixedTokenSpan<1>), // >
    Hashtag(FixedTokenSpan<1>), // #
    Star(FixedTokenSpan<1>), // *
    Dot(FixedTokenSpan<1>), // .
    Question(FixedTokenSpan<1>), // ?
    Underscore(FixedTokenSpan<1>), // _
    Arrow(FixedTokenSpan<2>), // ->
    And(FixedTokenSpan<1>), // &
    Or(FixedTokenSpan<1>), // |
    Comment(Span, String),
    EOF(FixedTokenSpan<1>), // end of input
    Invalid(FixedTokenSpan<1>, char),
}

impl Clone for Token {
    fn clone(&self) -> (r: Self)
        ensures
            r == *self,
    {
        match self {
            Token::Ident(sp, s) => Token::Ident(*sp, s.clone()),
            Token::Keyword(sp, k) => Token::Keyword(*sp, *k),
            Token::BinOp(sp, op) => Token::BinOp(*sp, *op),
            Token::StrLit(sp, s) => Token::StrLit(*sp, s.clone()),
            Token::NumLit(sp, s) => Token::NumLit(*sp, s.clone()),
            Token::Comma(sp) => Token::Comma(FixedTokenSpan(sp.0)),
            Token::OpenParen(sp) => Token::OpenParen(FixedTokenSpan(sp.0)),
            Token::ClosedParen(sp) => Token::ClosedParen(FixedTokenSpan(sp.0)),
            Token::OpenCurly(sp) => Token::OpenCurly(FixedTokenSpan(sp.0)),
            Token::ClosedCurly(sp) => Token::ClosedCurly(FixedTokenSpan(sp.0)),
            Token::OpenBracket(sp) => Token::OpenBracket(FixedTokenSpan(sp.0)),
            Token::ClosedBracket(sp) => Token::ClosedBracket(FixedTokenSpan(sp.0)),
            Token::Colon(sp) => Token::Colon(FixedTokenSpan(sp.0)),
            Token::Semi(sp) => Token::Semi(FixedTokenSpan(sp.0)),
            Token::Apostrophe(sp) => Token::Apostrophe(FixedTokenSpan(sp.0)),
            Token::OpenAngle(sp) => Token::OpenAngle(FixedTokenSpan(sp.0)),
            Token::ClosedAngle(sp) => Token::ClosedAngle(FixedTokenSpan(sp.0)),
            Token::Hashtag(sp) => Token::Hashtag(FixedTokenSpan(sp.0)),
            Token::Star(sp) => Token::Star(FixedTokenSpan(sp.0)),
            Token::Dot(sp) => Token::Dot(FixedTokenSpan(sp.0)),
            Token::Question(sp) => Token::Question(FixedTokenSpan(sp.0)),
            Token::Underscore(sp) => Token::Underscore(FixedTokenSpan(sp.0)),
            Token::Arrow(sp) => Token::Arrow(FixedTokenSpan(sp.0)),
            Token::And(sp) => Token::And(FixedTokenSpan(sp.0)),
            Token::Or(sp) => Token::Or(FixedTokenSpan(sp.0)),
            Token::Comment(sp, s) => Token::Comment(*sp, s.clone()),
            Token::EOF(sp) => Token::EOF(FixedTokenSpan(sp.0)),
            Token::Invalid(sp, c) => Token::Invalid(FixedTokenSpan(sp.0), *c),
        }
    }
}

impl Token {
    /// The kind of the token.
    pub open spec fn kind(&self) -> TokenType {
        match self {
            Token::Ident(_, _) => TokenType::Ident,
            Token::Keyword(_, _) => TokenType::Keyword,
            Token::BinOp(_, _) => TokenType::BinOp,
            Token::StrLit(_, _) => TokenType::StrLit,
            Token::NumLit(_, _) => TokenType::NumLit,
            Token::Comma(_) => TokenType::Comma,
            Token::OpenParen(_) => TokenType::OpenParen,
            Token::ClosedParen(_) => TokenType::ClosedParen,
            Token::OpenCurly(_) => TokenType::OpenCurly,
            Token::ClosedCurly(_) => TokenType::ClosedCurly,
            Token::OpenBracket(_) => TokenType::OpenBracket,
            Token::ClosedBracket(_) => TokenType::ClosedBracket,
            Token::Colon(_) => TokenType::Colon,
            Token::Semi(_) => TokenType::Semi,
            Token::Apostrophe(_) => TokenType::Apostrophe,
            Token::OpenAngle(_) => TokenType::OpenAngle,
            Token::ClosedAngle(_) => TokenType::ClosedAngle,
            Token::Hashtag(_) => TokenType::Hashtag,
            Token::Star(_) => TokenType::Star,
            Token::Dot(_) => TokenType::Dot,
            Token::Question(_) => TokenType::Question,
            Token::Underscore(_) => TokenType::Underscore,
            Token::Arrow(_) => TokenType::Arrow,
            Token::And(_) => TokenType::And,
            Token::Or(_) => TokenType::Or,
            Token::Comment(_, _) => TokenType::Comment,
            Token::EOF(_) => TokenType::EOF,
            Token::Invalid(_, _) => TokenType::Invalid,
        }
    }

    /// Every fixed-size span of the token ends within the offset range.
    pub open spec fn wf(&self) -> bool {
        match self {
            Token::Comma(sp) => sp.wf(),
            Token::OpenParen(sp) => sp.wf(),
            Token::ClosedParen(sp) => sp.wf(),
            Token::OpenCurly(sp) => sp.wf(),
            Token::ClosedCurly(sp) => sp.wf(),
            Token::OpenBracket(sp) => sp.wf(),
            Token::ClosedBracket(sp) => sp.wf(),
            Token::Colon(sp) => sp.wf(),
            Token::Semi(sp) => sp.wf(),
            Token::Apostrophe(sp) => sp.wf(),
            Token::OpenAngle(sp) => sp.wf(),
            Token::ClosedAngle(sp) => sp.wf(),
            Token::Hashtag(sp) => sp.wf(),
            Token::Star(sp) => sp.wf(),
            Token::Dot(sp) => sp.wf(),
            Token::Question(sp) => sp.wf(),
            Token::Underscore(sp) => sp.wf(),
            Token::Arrow(sp) => sp.wf(),
            Token::And(sp) => sp.wf(),
            Token::Or(sp) => sp.wf(),
            Token::EOF(sp) => sp.wf(),
            Token::Invalid(sp, _) => sp.wf(),
            _ => true,
        }
    }

    /// The start and end offsets of the token in its source text.
    pub open spec fn span_spec(&self) -> (int, int) {
        match self {
            Token::Ident(sp, _) => (sp.start as int, sp.end as int),
            Token::Keyword(sp, _) => (sp.start as int, sp.end as int),
            Token::BinOp(sp, _) => (sp.start as int, sp.end as int),
            Token::StrLit(sp, _) => (sp.start as int, sp.end as int),
            Token::NumLit(sp, _) => (sp.start as int, sp.end as int),
            Token::Comment(sp, _) => (sp.start as int, sp.end as int),
            Token::Comma(sp) => (sp.0 as int, sp.0 + 1),
            Token::OpenParen(sp) => (sp.0 as int, sp.0 + 1),
            Token::ClosedParen(sp) => (sp.0 as int, sp.0 + 1),
            Token::OpenCurly(sp) => (sp.0 as int, sp.0 + 1),
            Token::ClosedCurly(sp) => (sp.0 as int, sp.0 + 1),
            Token::OpenBracket(sp) => (sp.0 as int, sp.0 + 1),
            Token::ClosedBracket(sp) => (sp.0 as int, sp.0 + 1),
            Token::Colon(sp) => (sp.0 as int, sp.0 + 1),
            Token::Semi(sp) => (sp.0 as int, sp.0 + 1),
            Token::Apostrophe(sp) => (sp.0 as int, sp.0 + 1),
            Token::OpenAngle(sp) => (sp.0 as int, sp.0 + 1),
            Token::ClosedAngle(sp) => (sp.0 as int, sp.0 + 1),
            Token::Hashtag(sp) => (sp.0 as int, sp.0 + 1),
            Token::Star(sp) => (sp.0 as int, sp.0 + 1),
            Token::Dot(sp) => (sp.0 as int, sp.0 + 1),
            Token::Question(sp) => (sp.0 as int, sp.0 + 1),
            Token::Underscore(sp) => (sp.0 as int, sp.0 + 1),
            Token::Arrow(sp) => (sp.0 as int, sp.0 + 2),
            Token::And(sp) => (sp.0 as int, sp.0 + 1),
            Token::Or(sp) => (sp.0 as int, sp.0 + 1),
            Token::EOF(sp) => (sp.0 as int, sp.0 + 1),
            Token::Invalid(sp, _) => (sp.0 as int, sp.0 + 1),
        }
    }

    pub fn span(&self) -> (r: Span)
        requires
            self.wf(),
        ensures
            (r.start as int, r.end as int) == self.span_spec(),
    {
        match self {
            Token::Ident(sp, _) => *sp,
            Token::Keyword(sp, _) => *sp,
            Token::BinOp(sp, _) => *sp,
            Token::StrLit(sp, _) => *sp,
            Token::NumLit(sp, _) => *sp,
            Token::Comment(sp, _) => *sp,
            Token::Comma(sp) => sp.to_unfixed_span(),
            Token::OpenParen(sp) => sp.to_unfixed_span(),
            Token::ClosedParen(sp) => sp.to_unfixed_span(),
            Token::OpenCurly(sp) => sp.to_unfixed_span(),
            Token::ClosedCurly(sp) => sp.to_unfixed_span(),
            Token::OpenBracket(sp) => sp.to_unfixed_span(),
            Token::ClosedBracket(sp) => sp.to_unfixed_span(),
            Token::Colon(sp) => sp.to_unfixed_span(),
            Token::Semi(sp) => sp.to_unfixed_span(),
            Token::Apostrophe(sp) => sp.to_unfixed_span(),
            Token::OpenAngle(sp) => sp.to_unfixed_span(),
            Token::ClosedAngle(sp) => sp.to_unfixed_span(),
            Token::Hashtag(sp) => sp.to_unfixed_span(),
            Token::Star(sp) => sp.to_unfixed_span(),
            Token::Dot(sp) => sp.to_unfixed_span(),
            Token::Question(sp) => sp.to_unfixed_span(),
            Token::Underscore(sp) => sp.to_unfixed_span(),
            Token::Arrow(sp) => sp.to_unfixed_span(),
            Token::And(sp) => sp.to_unfixed_span(),
            Token::Or(sp) => sp.to_unfixed_span(),
            Token::EOF(sp) => sp.to_unfixed_span(),
            Token::Invalid(sp, _) => sp.to_unfixed_span(),
        }
    }

    pub fn to_type(&self) -> (r: TokenType)
        ensures
            r == self.kind(),
    {
        match self {
            Token::Ident(_, _) => TokenType::Ident,
            Token::Keyword(_, _) => TokenType::Keyword,
            Token::BinOp(_, _) => TokenType::BinOp,
            Token::StrLit(_, _) => TokenType::StrLit,
            Token::NumLit(_, _) => TokenType::NumLit,
            Token::Comma(_) => TokenType::Comma,
            Token::OpenParen(_) => TokenType::OpenParen,
            Token::ClosedParen(_) => TokenType::ClosedParen,
            Token::OpenCurly(_) => TokenType::OpenCurly,
            Token::ClosedCurly(_) => TokenType::ClosedCurly,
            Token::OpenBracket(_) => TokenType::OpenBracket,
            Token::ClosedBracket(_) => TokenType::ClosedBracket,
            Token::Colon(_) => TokenType::Colon,
            Token::Semi(_) => TokenType::Semi,
            Token::Apostrophe(_) => TokenType::Apostrophe,
            Token::OpenAngle(_) => TokenType::OpenAngle,
            Token::ClosedAngle(_) => TokenType::ClosedAngle,
            Token::Hashtag(_) => TokenType::Hashtag,
            Token::Star(_) => TokenType::Star,
            Token::Dot(_) => TokenType::Dot,
            Token::Question(_) => TokenType::Question,
            Token::Underscore(_) => TokenType::Underscore,
            Token::Arrow(_) => TokenType::Arrow,
            Token::And(_) => TokenType::And,
            Token::Or(_) => TokenType::Or,
            Token::Comment(_, _) => TokenType::Comment,
            Token::EOF(_) => TokenType::EOF,
            Token::Invalid(_, _) => TokenType::Invalid,
        }
    }
}

impl TokenType {
    /// Whether tokens of this kind carry text read from the source.
    pub fn is_buffered_token(&self) -> (r: bool)
        ensures
            r == (*self == TokenType::NumLit || *self == TokenType::StrLit || *self == TokenType::Ident
                || *self == TokenType::Keyword),
    {
        match self {
            TokenType::NumLit | TokenType::StrLit | TokenType::Ident | TokenType::Keyword => true,
            _ => false,
        }
    }
}

/// An arithmetic operator.
#[derive(Copy, Clone, Debug, PartialEq, Eq, Structural)]
pub enum Operator {
    Add,
    Sub,
    Mul,
    Div,
    Mod,
}

/// A binary operator; `Eq` is plain assignment.
#[derive(Copy, Clone, Debug, PartialEq, Eq, Structural)]
pub enum BinOp {
    Add,
    Sub,
    Mul,
    Div,
    Mod,
    AddEq,
    SubEq,
    MulEq,
    DivEq,
    AndEq,
    OrEq,
    AndAnd,
    OrOr,
    Eq,
}

/// How tightly an operator binds: higher binds tighter.
pub open spec fn prec(op: BinOp) -> nat {
    match op {
        BinOp::Mul | BinOp::Div | BinOp::Mod => 10,
        BinOp::Add | BinOp::Sub => 5,
        BinOp::AndAnd | BinOp::OrOr => 2,
        _ => 1,
    }
}

impl BinOp {
    pub fn precedence(&self) -> (r: usize)
        ensures
            r == prec(*self),
    {
        match self {
            BinOp::Add => 5,
            BinOp::Sub => 5,
            BinOp::Mul => 10,
            BinOp::Div => 10,
            BinOp::Mod => 10,
            BinOp::AndAnd => 2,
            BinOp::OrOr => 2,
            BinOp::AddEq => 1,
            BinOp::SubEq => 1,
            BinOp::MulEq => 1,
            BinOp::DivEq => 1,
            BinOp::AndEq => 1,
            BinOp::OrEq => 1,
            BinOp::Eq => 1,
        }
    }
}

} // verus!
