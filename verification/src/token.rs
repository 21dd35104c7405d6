//! The tokens of a command line.

use vstd::prelude::*;
use vstd::utf8::encode_utf8;
use crate::text::{decimal, signed_decimal, usize_to_string, i32_to_string};

verus! {

#[derive(Debug, PartialEq, Eq, PartialOrd, Ord)]
pub enum Token {
    EOF,
    /// `|`
    Pipe,
    /// `=`
    Assign,
    /// `>`
    Gt,
    /// `<`
    Lt,
    /// `;`
    Semicolon,
    /// `$`
    Dollar,
    /// `&`
    Ampersand,
    /// A word, quoted or bare.
    String(String),
    /// `$name`
    Ident(String),
    /// A run of digits.
    Number(usize),
    /// `@n`
    FD(i32),
}

pub enum TokenView {
    EOF,
    Pipe,
    Assign,
    Gt,
    Lt,
    Semicolon,
    Dollar,
    Ampersand,
    String(Seq<char>),
    Ident(Seq<char>),
    Number(usize),
    FD(i32),
}

impl View for Token {
    type V = TokenView;

    open spec fn view(&self) -> TokenView {
        match self {
            Token::EOF => TokenView::EOF,
            Token::Pipe => TokenView::Pipe,
            Token::Assign => TokenView::Assign,
            Token::Gt => TokenView::Gt,
            Token::Lt => TokenView::Lt,
            Token::Semicolon => TokenView::Semicolon,
            Token::Dollar => TokenView::Dollar,
            Token::Ampersand => TokenView::Ampersand,
            Token::String(s) => TokenView::String(s@),
            Token::Ident(s) => TokenView::Ident(s@),
            Token::Number(n) => TokenView::Number(*n),
            Token::FD(n) => TokenView::FD(*n),
        }
    }
}

impl Clone for Token {
    fn clone(&self) -> (r: Token)
        ensures
            r@ == self@,
    {
        match self {
            Token::EOF => Token::EOF,
            Token::Pipe => Token::Pipe,
            Token::Assign => Token::Assign,
            Token::Gt => Token::Gt,
            Token::Lt => Token::Lt,
            Token::Semicolon => Token::Semicolon,
            Token::Dollar => Token::Dollar,
            Token::Ampersand => Token::Ampersand,
            Token::String(s) => Token::String(s.clone()),
            Token::Ident(s) => Token::Ident(s.clone()),
            Token::Number(n) => Token::Number(*n),
            Token::FD(n) => Token::FD(*n),
        }
    }
}

/// The views of a sequence of tokens.
pub open spec fn token_views(s: Seq<Token>) -> Seq<TokenView> {
    s.map_values(|t: Token| t@)
}

impl TokenView {
    /// The text of a token, as it is shown to a user.
    pub open spec fn text(self) -> Seq<char> {
        match self {
            TokenView::EOF => "EOF"@,
            TokenView::Pipe => "|"@,
            TokenView::Assign => "="@,
            TokenView::Gt => ">"@,
            TokenView::Lt => "<"@,
            TokenView::Semicolon => ";"@,
            TokenView::Dollar => "$"@,
            TokenView::Ampersand => "&"@,
            TokenView::String(s) => s,
            TokenView::Ident(s) => s,
            TokenView::Number(n) => decimal(n as nat),
            TokenView::FD(n) => signed_decimal(n as int),
        }
    }
}

/// The length of a string in bytes of UTF-8.
pub open spec fn utf8_len(s: Seq<char>) -> nat {
    encode_utf8(s).len()
}

impl Token {
    /// The width of a token: nothing for the end of input, one for a
    /// symbol, the length in bytes for a word or a name, and the number of
    /// characters of its decimal form for a number or a descriptor.
    pub open spec fn width(t: TokenView) -> nat {
        match t {
            TokenView::EOF => 0,
            TokenView::String(s) => utf8_len(s),
            TokenView::Ident(s) => utf8_len(s),
            TokenView::Number(n) => decimal(n as nat).len(),
            TokenView::FD(n) => signed_decimal(n as int).len(),
            _ => 1,
        }
    }

    pub fn len(&self) -> (r: usize)
        ensures
            r == Token::width(self@),
    {
        match self {
            Token::EOF => 0,
            Token::Pipe => 1,
            Token::Assign => 1,
            Token::Gt => 1,
            Token::Lt => 1,
            Token::Semicolon => 1,
            Token::Dollar => 1,
            Token::Ampersand => 1,
            Token::String(v) => v.as_str().as_bytes().len(),
            Token::Ident(v) => v.as_str().as_bytes().len(),
            Token::Number(v) => usize_to_string(*v).as_str().unicode_len(),
            Token::FD(v) => i32_to_string(*v).as_str().unicode_len(),
        }
    }

    /// The text of the token, as it is shown to a user.
    pub fn to_string(&self) -> (r: String)
        ensures
            r@ == self@.text(),
    {
        match self {
            Token::EOF => String::from_str("EOF"),
            Token::Pipe => String::from_str("|"),
            Token::Assign => String::from_str("="),
            Token::Gt => String::from_str(">"),
            Token::Lt => String::from_str("<"),
            Token::Semicolon => String::from_str(";"),
            Token::Dollar => String::from_str("$"),
            Token::Ampersand => String::from_str("&"),
            Token::String(v) => v.clone(),
            Token::Ident(v) => v.clone(),
            Token::Number(v) => usize_to_string(*v),
            Token::FD(v) => i32_to_string(*v),
        }
    }

    /// Whether two tokens are the same token.
    pub fn same(&self, other: &Token) -> (r: bool)
        ensures
            r == (self@ == other@),
    {
        match (self, other) {
            (Token::EOF, Token::EOF) => true,
            (Token::Pipe, Token::Pipe) => true,
            (Token::Assign, Token::Assign) => true,
            (Token::Gt, Token::Gt) => true,
            (Token::Lt, Token::Lt) => true,
            (Token::Semicolon, Token::Semicolon) => true,
            (Token::Dollar, Token::Dollar) => true,
            (Token::Ampersand, Token::Ampersand) => true,
            (Token::String(a), Token::String(b)) => *a == *b,
            (Token::Ident(a), Token::Ident(b)) => *a == *b,
            (Token::Number(a), Token::Number(b)) => *a == *b,
            (Token::FD(a), Token::FD(b)) => *a == *b,
            _ => false,
        }
    }
}

} // verus!
