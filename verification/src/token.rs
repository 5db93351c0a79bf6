//! The lexical atoms of the language.
use crate::text::same_text;
use std::rc::Rc;
use vstd::prelude::*;
use vstd::string::*;

verus! {

/// One lexical unit. Identifiers and string literals carry shared text.
#[derive(Debug, Clone, PartialEq)]
pub enum Token {
    LParen,
    RParen,
    Semi,
    Colon,
    Comma,
    Lt,
    Gt,
    Plus,
    Sub,
    Mul,
    Eq,
    Let,
    Func,
    Id(Rc<String>),
    Str(Rc<String>),
}

/// What a token is, with its text as a sequence of characters.
pub enum TokenView {
    LParen,
    RParen,
    Semi,
    Colon,
    Comma,
    Lt,
    Gt,
    Plus,
    Sub,
    Mul,
    Eq,
    Let,
    Func,
    Id(Seq<char>),
    Str(Seq<char>),
}

impl View for Token {
    type V = TokenView;

    open spec fn view(&self) -> TokenView {
        match self {
            Token::LParen => TokenView::LParen,
            Token::RParen => TokenView::RParen,
            Token::Semi => TokenView::Semi,
            Token::Colon => TokenView::Colon,
            Token::Comma => TokenView::Comma,
            Token::Lt => TokenView::Lt,
            Token::Gt => TokenView::Gt,
            Token::Plus => TokenView::Plus,
            Token::Sub => TokenView::Sub,
            Token::Mul => TokenView::Mul,
            Token::Eq => TokenView::Eq,
            Token::Let => TokenView::Let,
            Token::Func => TokenView::Func,
            Token::Id(text) => TokenView::Id(text@),
            Token::Str(text) => TokenView::Str(text@),
        }
    }
}

/// The views of a run of tokens, in order.
pub open spec fn token_views(tokens: Seq<Token>) -> Seq<TokenView> {
    tokens.map_values(|t: Token| t@)
}

/// How a token is written in a diagnostic: the kind's name, and for an
/// identifier or a string literal its text between quotes and parentheses.
pub open spec fn token_text(t: TokenView) -> Seq<char> {
    match t {
        TokenView::LParen => "LParen"@,
        TokenView::RParen => "RParen"@,
        TokenView::Semi => "Semi"@,
        TokenView::Colon => "Colon"@,
        TokenView::Comma => "Comma"@,
        TokenView::Lt => "Lt"@,
        TokenView::Gt => "Gt"@,
        TokenView::Plus => "Plus"@,
        TokenView::Sub => "Sub"@,
        TokenView::Mul => "Mul"@,
        TokenView::Eq => "Eq"@,
        TokenView::Let => "Let"@,
        TokenView::Func => "Func"@,
        TokenView::Id(text) => "Id(\""@ + text + "\")"@,
        TokenView::Str(text) => "Str(\""@ + text + "\")"@,
    }
}

impl Token {
    /// Structural equality: the same kind, and for an identifier or a string
    /// literal the same text, whichever handle holds it.
    pub fn same(&self, other: &Token) -> (r: bool)
        ensures
            r == (self@ == other@),
    {
        match self {
            Token::LParen => matches!(other, Token::LParen),
            Token::RParen => matches!(other, Token::RParen),
            Token::Semi => matches!(other, Token::Semi),
            Token::Colon => matches!(other, Token::Colon),
            Token::Comma => matches!(other, Token::Comma),
            Token::Lt => matches!(other, Token::Lt),
            Token::Gt => matches!(other, Token::Gt),
            Token::Plus => matches!(other, Token::Plus),
            Token::Sub => matches!(other, Token::Sub),
            Token::Mul => matches!(other, Token::Mul),
            Token::Eq => matches!(other, Token::Eq),
            Token::Let => matches!(other, Token::Let),
            Token::Func => matches!(other, Token::Func),
            Token::Id(a) => match other {
                Token::Id(b) => same_text(a, b),
                _ => false,
            },
            Token::Str(a) => match other {
                Token::Str(b) => same_text(a, b),
                _ => false,
            },
        }
    }

    /// The token as a diagnostic shows it.
    pub fn describe(&self) -> (r: String)
        ensures
            r@ == token_text(self@),
    {
        match self {
            Token::LParen => String::from_str("LParen"),
            Token::RParen => String::from_str("RParen"),
            Token::Semi => String::from_str("Semi"),
            Token::Colon => String::from_str("Colon"),
            Token::Comma => String::from_str("Comma"),
            Token::Lt => String::from_str("Lt"),
            Token::Gt => String::from_str("Gt"),
            Token::Plus => String::from_str("Plus"),
            Token::Sub => String::from_str("Sub"),
            Token::Mul => String::from_str("Mul"),
            Token::Eq => String::from_str("Eq"),
            Token::Let => String::from_str("Let"),
            Token::Func => String::from_str("Func"),
            Token::Id(text) => {
                let mut r = String::from_str("Id(\"");
                r.append(text.as_str());
                r.append("\")");
                r
            },
            Token::Str(text) => {
                let mut r = String::from_str("Str(\"");
                r.append(text.as_str());
                r.append("\")");
                r
            },
        }
    }
}

} // verus!
