//! Tokens as the lexer hands them to the parser.

use vstd::prelude::*;
use crate::span::Span;

verus! {

/// The kind of a token. Literal and identifier kinds carry their text in
/// [`Token::text`]; for every other kind the text is not read.
#[derive(Clone, Copy, Debug, PartialEq, Eq, Hash, Structural)]
pub enum TokenKind {
    // Literals and names.
    Int,
    Ident,
    AddressLit,
    True,
    False,
    // Operators.
    Not,
    And,
    Or,
    BitAnd,
    BitOr,
    BitXor,
    BitNot,
    Eq,
    NotEq,
    Lt,
    LtEq,
    Gt,
    GtEq,
    Shl,
    Shr,
    ShrSigned,
    Add,
    Minus,
    Mul,
    Div,
    Mod,
    Exp,
    Assign,
    // Punctuation.
    Question,
    Colon,
    DoubleColon,
    Comma,
    Dot,
    DotDot,
    DotDotDot,
    Semicolon,
    Arrow,
    LeftParen,
    RightParen,
    LeftSquare,
    RightSquare,
    LeftCurly,
    RightCurly,
    // Type names.
    I8,
    I16,
    I32,
    I64,
    I128,
    U8,
    U16,
    U32,
    U64,
    U128,
    Field,
    Group,
    Address,
    Bool,
    // Keywords.
    As,
    BigSelf,
    LittleSelf,
    Input,
    If,
    Else,
    For,
    In,
    Let,
    Const,
    Return,
}

/// A token: its kind, its text and where it stands in the source.
#[derive(Clone, Debug, PartialEq, Eq)]
pub struct Token {
    pub kind: TokenKind,
    pub text: String,
    pub span: Span,
}

/// The mathematical value of a [`Token`].
pub struct TokenView {
    pub kind: TokenKind,
    pub text: Seq<char>,
    pub span: Span,
}

impl View for Token {
    type V = TokenView;

    open spec fn view(&self) -> TokenView {
        TokenView { kind: self.kind, text: self.text@, span: self.span }
    }
}

impl Token {
    pub fn new(kind: TokenKind, text: &str, span: Span) -> (out: Token)
        ensures
            out@ == (TokenView { kind, text: text@, span }),
    {
        Token { kind, text: text.to_owned(), span }
    }

    /// A copy of this token.
    pub fn duplicate(&self) -> (out: Token)
        ensures
            out == *self,
    {
        Token { kind: self.kind, text: self.text.clone(), span: self.span }
    }
}

/// The views of a sequence of tokens, position by position.
pub open spec fn token_views(tokens: Seq<Token>) -> Seq<TokenView> {
    Seq::new(tokens.len(), |i: int| tokens[i]@)
}

} // verus!
