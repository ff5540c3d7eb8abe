//! Tokens: the vocabulary shared by the lexer and the parser.

use vstd::prelude::*;
use vstd::string::*;

verus! {

/// The category of a token.
#[derive(Clone, Copy, Debug, PartialEq, Eq, Structural)]
pub enum TokenKind {
    LeftParen,
    RightParen,
    LeftBrace,
    RightBrace,
    Comma,
    Dot,
    Minus,
    Plus,
    Semicolon,
    Slash,
    Star,
    Bang,
    BangEqual,
    Equal,
    EqualEqual,
    Greater,
    GreaterEqual,
    Less,
    LessEqual,
    Identifier,
    Str,
    Number,
    And,
    Class,
    Else,
    False,
    Fun,
    For,
    If,
    Nil,
    Or,
    Print,
    Return,
    Super,
    This,
    True,
    Var,
    While,
    Eof,
}

/// One token of source text.
///
/// `literal` is present for literals only: the characters between the quotes
/// of a string, or the digits of a number as they were written.
#[derive(Debug)]
pub struct Token {
    pub kind: TokenKind,
    pub lexeme: String,
    pub literal: Option<String>,
    pub line: usize,
}

/// The mathematical content of a [`Token`].
pub struct TokenView {
    pub kind: TokenKind,
    pub lexeme: Seq<char>,
    pub literal: Option<Seq<char>>,
    pub line: usize,
}

impl View for Token {
    type V = TokenView;

    open spec fn view(&self) -> TokenView {
        TokenView {
            kind: self.kind,
            lexeme: self.lexeme@,
            literal: match self.literal {
                Some(text) => Some(text@),
                None => None,
            },
            line: self.line,
        }
    }
}

/// The views of a sequence of tokens, in order.
pub open spec fn token_views(tokens: Seq<Token>) -> Seq<TokenView> {
    tokens.map_values(|t: Token| t@)
}

pub proof fn lemma_token_views_push(tokens: Seq<Token>, t: Token)
    ensures
        token_views(tokens.push(t)) == token_views(tokens).push(t@),
{
    assert(token_views(tokens.push(t)) =~= token_views(tokens).push(t@));
}

impl TokenKind {
    /// How a token of this kind is named in a diagnostic.
    pub open spec fn spelling(self) -> Seq<char> {
        match self {
            TokenKind::LeftParen => "'('"@,
            TokenKind::RightParen => "')'"@,
            TokenKind::LeftBrace => "'{'"@,
            TokenKind::RightBrace => "'}'"@,
            TokenKind::Comma => "','"@,
            TokenKind::Dot => "'.'"@,
            TokenKind::Semicolon => "';'"@,
            TokenKind::Identifier => "a name"@,
            TokenKind::Eof => "the end"@,
            _ => "another token"@,
        }
    }

    /// How a token of this kind is named in a diagnostic.
    pub fn name(self) -> (text: String)
        ensures
            text@ == self.spelling(),
    {
        match self {
            TokenKind::LeftParen => String::from_str("'('"),
            TokenKind::RightParen => String::from_str("')'"),
            TokenKind::LeftBrace => String::from_str("'{'"),
            TokenKind::RightBrace => String::from_str("'}'"),
            TokenKind::Comma => String::from_str("','"),
            TokenKind::Dot => String::from_str("'.'"),
            TokenKind::Semicolon => String::from_str("';'"),
            TokenKind::Identifier => String::from_str("a name"),
            TokenKind::Eof => String::from_str("the end"),
            _ => String::from_str("another token"),
        }
    }
}

} // verus!
